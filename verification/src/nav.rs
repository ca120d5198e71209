//! The viewing session: one state value per open report file, a cursor over
//! suites, cases and detail text, and the key-driven transitions between
//! them.

use vstd::prelude::*;
use vstd::string::StringExecFns;
use vstd::view::View as VstdView;
use crate::model::saturate_u64;
use crate::model::spec_total_errors;
use crate::model::spec_total_failures;
use crate::model::spec_total_passed;
use crate::model::spec_total_skipped;
use crate::model::spec_total_tests;
use crate::model::SuitesV;
use crate::model::TestSuites;

verus! {

/// One opened file: its name and its parsed report.
pub struct FileReport {
    pub filename: String,
    pub data: TestSuites,
}

/// Mathematical mirror of `FileReport`.
pub ghost struct FileReportV {
    pub filename: Seq<char>,
    pub data: SuitesV,
}

impl DeepView for FileReport {
    type V = FileReportV;

    open spec fn deep_view(&self) -> FileReportV {
        FileReportV { filename: self.filename.deep_view(), data: self.data.deep_view() }
    }
}

/// Which pane the session shows.
#[derive(Debug, Clone, Copy, PartialEq, Eq, Structural)]
pub enum View {
    SuiteList,
    TestList,
    TestDetail,
}

/// A pressed key, reduced to what the session reacts to.
#[derive(Debug, Clone, Copy, PartialEq, Eq, Structural)]
pub enum Key {
    Char(char),
    Up,
    Down,
    Left,
    Right,
    Home,
    End,
    PageUp,
    PageDown,
    Enter,
    Esc,
    Backspace,
    Tab,
    BackTab,
    Other,
}

/// A key together with whether the control modifier was held.
#[derive(Debug, Clone, Copy, PartialEq, Eq, Structural)]
pub struct KeyPress {
    pub key: Key,
    pub ctrl: bool,
}

/// The whole session state.
pub struct App {
    pub files: Vec<FileReport>,
    pub selected_file: usize,
    pub selected_suite: usize,
    pub selected_test: usize,
    pub view: View,
    pub scroll_offset: u16,
    pub should_quit: bool,
    pub multi_file: bool,
}

impl App {
    /// The session points at an open file.
    pub open spec fn wf(self) -> bool {
        self.selected_file < self.files@.len()
    }

    /// The number of suites in the file under the cursor.
    pub open spec fn spec_suite_count(self) -> int {
        self.files@[self.selected_file as int].data.suites@.len() as int
    }

    /// The number of cases in the suite under the cursor, zero when the
    /// suite cursor is out of range.
    pub open spec fn spec_test_count(self) -> int {
        if self.selected_suite < self.spec_suite_count() {
            self.files@[self.selected_file as int].data.suites@[self.selected_suite as
                int].test_cases@.len() as int
        } else {
            0
        }
    }

    /// Moving the cursor down one step.
    pub open spec fn spec_select_next(self) -> App {
        match self.view {
            View::SuiteList => {
                if self.spec_suite_count() > 0 && self.selected_suite < self.spec_suite_count()
                    - 1 {
                    App { selected_suite: (self.selected_suite + 1) as usize, ..self }
                } else {
                    self
                }
            },
            View::TestList => {
                if self.spec_test_count() > 0 && self.selected_test < self.spec_test_count() - 1 {
                    App { selected_test: (self.selected_test + 1) as usize, ..self }
                } else {
                    self
                }
            },
            View::TestDetail => {
                if self.scroll_offset < u16::MAX {
                    App { scroll_offset: (self.scroll_offset + 1) as u16, ..self }
                } else {
                    self
                }
            },
        }
    }

    /// Moving the cursor up one step.
    pub open spec fn spec_select_prev(self) -> App {
        match self.view {
            View::SuiteList => {
                if self.selected_suite > 0 {
                    App { selected_suite: (self.selected_suite - 1) as usize, ..self }
                } else {
                    self
                }
            },
            View::TestList => {
                if self.selected_test > 0 {
                    App { selected_test: (self.selected_test - 1) as usize, ..self }
                } else {
                    self
                }
            },
            View::TestDetail => {
                if self.scroll_offset > 0 {
                    App { scroll_offset: (self.scroll_offset - 1) as u16, ..self }
                } else {
                    self
                }
            },
        }
    }

    /// Jumping to the top.
    pub open spec fn spec_select_first(self) -> App {
        match self.view {
            View::SuiteList => App { selected_suite: 0 as usize, ..self },
            View::TestList => App { selected_test: 0 as usize, ..self },
            View::TestDetail => App { scroll_offset: 0 as u16, ..self },
        }
    }

    /// Jumping to the bottom; detail scrolling jumps far down instead.
    pub open spec fn spec_select_last(self) -> App {
        match self.view {
            View::SuiteList => {
                if self.spec_suite_count() > 0 {
                    App { selected_suite: (self.spec_suite_count() - 1) as usize, ..self }
                } else {
                    self
                }
            },
            View::TestList => {
                if self.spec_test_count() > 0 {
                    App { selected_test: (self.spec_test_count() - 1) as usize, ..self }
                } else {
                    self
                }
            },
            View::TestDetail => App { scroll_offset: (u16::MAX / 2) as u16, ..self },
        }
    }

    /// Descending into the pane under the cursor.
    pub open spec fn spec_enter(self) -> App {
        match self.view {
            View::SuiteList => {
                if self.spec_suite_count() > 0 {
                    App { selected_test: 0 as usize, view: View::TestList, ..self }
                } else {
                    self
                }
            },
            View::TestList => {
                if self.spec_test_count() > 0 {
                    App { scroll_offset: 0 as u16, view: View::TestDetail, ..self }
                } else {
                    self
                }
            },
            View::TestDetail => self,
        }
    }

    /// Going back up one pane.
    pub open spec fn spec_go_back(self) -> App {
        match self.view {
            View::SuiteList => self,
            View::TestList => App { view: View::SuiteList, ..self },
            View::TestDetail => App { view: View::TestList, ..self },
        }
    }

    /// The cursor state after coming back to a file.
    pub open spec fn spec_reset_selection(self) -> App {
        App {
            selected_suite: 0 as usize,
            selected_test: 0 as usize,
            scroll_offset: 0 as u16,
            view: View::SuiteList,
            ..self
        }
    }

    /// Cycling forward through the open files.
    pub open spec fn spec_next_file(self) -> App {
        if self.multi_file {
            App {
                selected_file: ((self.selected_file + 1) as int % self.files@.len() as int) as usize,
                ..self
            }.spec_reset_selection()
        } else {
            self
        }
    }

    /// Cycling backward through the open files.
    pub open spec fn spec_prev_file(self) -> App {
        if self.multi_file {
            let sf = if self.selected_file == 0 {
                (self.files@.len() - 1) as usize
            } else {
                (self.selected_file - 1) as usize
            };
            App { selected_file: sf, ..self }.spec_reset_selection()
        } else {
            self
        }
    }

    /// Moving the cursor down `n` steps.
    pub open spec fn spec_select_next_n(self, n: nat) -> App
        decreases n,
    {
        if n == 0 {
            self
        } else {
            self.spec_select_next_n((n - 1) as nat).spec_select_next()
        }
    }

    /// Moving the cursor up `n` steps.
    pub open spec fn spec_select_prev_n(self, n: nat) -> App
        decreases n,
    {
        if n == 0 {
            self
        } else {
            self.spec_select_prev_n((n - 1) as nat).spec_select_prev()
        }
    }

    /// Opens a session on the given files, cursor at the top of the first.
    pub fn new(files: Vec<FileReport>) -> (r: App)
        ensures
            r.files == files,
            r.selected_file == 0,
            r.selected_suite == 0,
            r.selected_test == 0,
            r.view == View::SuiteList,
            r.scroll_offset == 0,
            r.should_quit == false,
            r.multi_file == (files@.len() > 1),
    {
        let multi_file = files.len() > 1;
        App {
            files,
            selected_file: 0,
            selected_suite: 0,
            selected_test: 0,
            view: View::SuiteList,
            scroll_offset: 0,
            should_quit: false,
            multi_file,
        }
    }

    /// The file under the cursor.
    pub fn current_file(&self) -> (r: &FileReport)
        requires
            self.wf(),
        ensures
            *r == self.files@[self.selected_file as int],
    {
        &self.files[self.selected_file]
    }

    /// How many suites the file under the cursor holds.
    pub fn suite_count(&self) -> (r: usize)
        requires
            self.wf(),
        ensures
            r == self.spec_suite_count(),
    {
        self.current_file().data.suites.len()
    }

    /// How many cases the suite under the cursor holds.
    pub fn test_count(&self) -> (r: usize)
        requires
            self.wf(),
        ensures
            r == self.spec_test_count(),
    {
        if self.selected_suite < self.suite_count() {
            self.current_file().data.suites[self.selected_suite].test_cases.len()
        } else {
            0
        }
    }

    /// Moves the cursor down one step.
    pub fn select_next(&mut self)
        requires
            old(self).wf(),
        ensures
            *final(self) == old(self).spec_select_next(),
            final(self).wf(),
    {
        match self.view {
            View::SuiteList => {
                let count = self.suite_count();
                if count > 0 && self.selected_suite < count - 1 {
                    self.selected_suite = self.selected_suite + 1;
                }
            },
            View::TestList => {
                let count = self.test_count();
                if count > 0 && self.selected_test < count - 1 {
                    self.selected_test = self.selected_test + 1;
                }
            },
            View::TestDetail => {
                self.scroll_offset = self.scroll_offset.saturating_add(1);
            },
        }
    }

    /// Moves the cursor up one step.
    pub fn select_prev(&mut self)
        requires
            old(self).wf(),
        ensures
            *final(self) == old(self).spec_select_prev(),
            final(self).wf(),
    {
        match self.view {
            View::SuiteList => {
                self.selected_suite = self.selected_suite.saturating_sub(1);
            },
            View::TestList => {
                self.selected_test = self.selected_test.saturating_sub(1);
            },
            View::TestDetail => {
                self.scroll_offset = self.scroll_offset.saturating_sub(1);
            },
        }
    }

    /// Jumps to the top of the current pane.
    pub fn select_first(&mut self)
        requires
            old(self).wf(),
        ensures
            *final(self) == old(self).spec_select_first(),
            final(self).wf(),
    {
        match self.view {
            View::SuiteList => {
                self.selected_suite = 0;
            },
            View::TestList => {
                self.selected_test = 0;
            },
            View::TestDetail => {
                self.scroll_offset = 0;
            },
        }
    }

    /// Jumps to the bottom of the current pane.
    pub fn select_last(&mut self)
        requires
            old(self).wf(),
        ensures
            *final(self) == old(self).spec_select_last(),
            final(self).wf(),
    {
        match self.view {
            View::SuiteList => {
                let count = self.suite_count();
                if count > 0 {
                    self.selected_suite = count - 1;
                }
            },
            View::TestList => {
                let count = self.test_count();
                if count > 0 {
                    self.selected_test = count - 1;
                }
            },
            View::TestDetail => {
                self.scroll_offset = u16::MAX / 2;
            },
        }
    }

    /// Descends into the pane under the cursor.
    pub fn enter(&mut self)
        requires
            old(self).wf(),
        ensures
            *final(self) == old(self).spec_enter(),
            final(self).wf(),
    {
        match self.view {
            View::SuiteList => {
                if self.suite_count() > 0 {
                    self.selected_test = 0;
                    self.view = View::TestList;
                }
            },
            View::TestList => {
                if self.test_count() > 0 {
                    self.scroll_offset = 0;
                    self.view = View::TestDetail;
                }
            },
            View::TestDetail => {},
        }
    }

    /// Goes back up one pane.
    pub fn go_back(&mut self)
        requires
            old(self).wf(),
        ensures
            *final(self) == old(self).spec_go_back(),
            final(self).wf(),
    {
        match self.view {
            View::SuiteList => {},
            View::TestList => {
                self.view = View::SuiteList;
            },
            View::TestDetail => {
                self.view = View::TestList;
            },
        }
    }

    fn reset_selection(&mut self)
        ensures
            *final(self) == old(self).spec_reset_selection(),
    {
        self.selected_suite = 0;
        self.selected_test = 0;
        self.scroll_offset = 0;
        self.view = View::SuiteList;
    }

    /// Cycles forward through the open files.
    pub fn next_file(&mut self)
        requires
            old(self).wf(),
        ensures
            *final(self) == old(self).spec_next_file(),
            final(self).wf(),
    {
        if self.multi_file {
            proof {
                assert(self.selected_file < self.files@.len());
            }
            let n = self.files.len();
            self.selected_file = (self.selected_file + 1) % n;
            self.reset_selection();
        }
    }

    /// Cycles backward through the open files.
    pub fn prev_file(&mut self)
        requires
            old(self).wf(),
        ensures
            *final(self) == old(self).spec_prev_file(),
            final(self).wf(),
    {
        if self.multi_file {
            if self.selected_file == 0 {
                self.selected_file = self.files.len() - 1;
            } else {
                self.selected_file = self.selected_file - 1;
            }
            self.reset_selection();
        }
    }

    /// Moves the cursor down ten steps.
    pub fn page_down(&mut self)
        requires
            old(self).wf(),
        ensures
            *final(self) == old(self).spec_select_next_n(10),
            final(self).wf(),
    {
        let ghost a0 = *self;
        let mut k: usize = 0;
        while k < 10
            invariant
                0 <= k <= 10,
                *self == a0.spec_select_next_n(k as nat),
                self.wf(),
            decreases 10 - k,
        {
            self.select_next();
            k = k + 1;
        }
    }

    /// Moves the cursor up ten steps.
    pub fn page_up(&mut self)
        requires
            old(self).wf(),
        ensures
            *final(self) == old(self).spec_select_prev_n(10),
            final(self).wf(),
    {
        let ghost a0 = *self;
        let mut k: usize = 0;
        while k < 10
            invariant
                0 <= k <= 10,
                *self == a0.spec_select_prev_n(k as nat),
                self.wf(),
            decreases 10 - k,
        {
            self.select_prev();
            k = k + 1;
        }
    }
}

/// The declared test totals of the open files, added up.
pub open spec fn agg_tests(files: Seq<FileReportV>) -> int
    decreases files.len(),
{
    if files.len() == 0 {
        0
    } else {
        agg_tests(files.drop_last()) + spec_total_tests(files.last().data)
    }
}

/// The derived passed counts of the open files, added up.
pub open spec fn agg_passed(files: Seq<FileReportV>) -> int
    decreases files.len(),
{
    if files.len() == 0 {
        0
    } else {
        agg_passed(files.drop_last()) + spec_total_passed(files.last().data)
    }
}

/// The declared failure totals of the open files, added up.
pub open spec fn agg_failures(files: Seq<FileReportV>) -> int
    decreases files.len(),
{
    if files.len() == 0 {
        0
    } else {
        agg_failures(files.drop_last()) + spec_total_failures(files.last().data)
    }
}

/// The declared error totals of the open files, added up.
pub open spec fn agg_errors(files: Seq<FileReportV>) -> int
    decreases files.len(),
{
    if files.len() == 0 {
        0
    } else {
        agg_errors(files.drop_last()) + spec_total_errors(files.last().data)
    }
}

/// The skip totals of the open files, added up.
pub open spec fn agg_skipped(files: Seq<FileReportV>) -> int
    decreases files.len(),
{
    if files.len() == 0 {
        0
    } else {
        agg_skipped(files.drop_last()) + spec_total_skipped(files.last().data)
    }
}

proof fn lemma_agg_nonneg(files: Seq<FileReportV>)
    ensures
        agg_tests(files) >= 0,
        agg_passed(files) >= 0,
        agg_failures(files) >= 0,
        agg_errors(files) >= 0,
        agg_skipped(files) >= 0,
    decreases files.len(),
{
    if files.len() > 0 {
        lemma_agg_nonneg(files.drop_last());
    }
}

proof fn lemma_agg_take_step(files: Seq<FileReportV>, i: int)
    requires
        0 <= i < files.len(),
    ensures
        agg_tests(files.take(i + 1)) == agg_tests(files.take(i)) + spec_total_tests(
            files[i].data,
        ),
        agg_passed(files.take(i + 1)) == agg_passed(files.take(i)) + spec_total_passed(
            files[i].data,
        ),
        agg_failures(files.take(i + 1)) == agg_failures(files.take(i)) + spec_total_failures(
            files[i].data,
        ),
        agg_errors(files.take(i + 1)) == agg_errors(files.take(i)) + spec_total_errors(
            files[i].data,
        ),
        agg_skipped(files.take(i + 1)) == agg_skipped(files.take(i)) + spec_total_skipped(
            files[i].data,
        ),
{
    assert(files.take(i + 1).drop_last() =~= files.take(i));
    assert(files.take(i + 1).last() == files[i]);
}

impl App {
    /// Declared tests across all open files, clamped into `u64`.
    pub fn aggregate_tests(&self) -> (r: u64)
        ensures
            r == saturate_u64(agg_tests(self.files.deep_view())),
    {
        let ghost fv = self.files.deep_view();
        let mut acc: u64 = 0;
        let mut i: usize = 0;
        while i < self.files.len()
            invariant
                0 <= i <= self.files@.len(),
                fv == self.files.deep_view(),
                fv.len() == self.files@.len(),
                acc == saturate_u64(agg_tests(fv.take(i as int))),
            decreases self.files@.len() - i,
        {
            proof {
                lemma_agg_take_step(fv, i as int);
                lemma_agg_nonneg(fv.take(i as int));
            }
            let t = self.files[i].data.total_tests();
            acc = acc.saturating_add(t);
            i = i + 1;
        }
        proof {
            assert(fv.take(fv.len() as int) =~= fv);
        }
        acc
    }

    /// Derived passed counts across all open files, clamped into `u64`.
    pub fn aggregate_passed(&self) -> (r: u64)
        ensures
            r == saturate_u64(agg_passed(self.files.deep_view())),
    {
        let ghost fv = self.files.deep_view();
        let mut acc: u64 = 0;
        let mut i: usize = 0;
        while i < self.files.len()
            invariant
                0 <= i <= self.files@.len(),
                fv == self.files.deep_view(),
                fv.len() == self.files@.len(),
                acc == saturate_u64(agg_passed(fv.take(i as int))),
            decreases self.files@.len() - i,
        {
            proof {
                lemma_agg_take_step(fv, i as int);
                lemma_agg_nonneg(fv.take(i as int));
            }
            let t = self.files[i].data.total_passed();
            acc = acc.saturating_add(t);
            i = i + 1;
        }
        proof {
            assert(fv.take(fv.len() as int) =~= fv);
        }
        acc
    }

    /// Declared failures across all open files, clamped into `u64`.
    pub fn aggregate_failures(&self) -> (r: u64)
        ensures
            r == saturate_u64(agg_failures(self.files.deep_view())),
    {
        let ghost fv = self.files.deep_view();
        let mut acc: u64 = 0;
        let mut i: usize = 0;
        while i < self.files.len()
            invariant
                0 <= i <= self.files@.len(),
                fv == self.files.deep_view(),
                fv.len() == self.files@.len(),
                acc == saturate_u64(agg_failures(fv.take(i as int))),
            decreases self.files@.len() - i,
        {
            proof {
                lemma_agg_take_step(fv, i as int);
                lemma_agg_nonneg(fv.take(i as int));
            }
            let t = self.files[i].data.total_failures();
            acc = acc.saturating_add(t);
            i = i + 1;
        }
        proof {
            assert(fv.take(fv.len() as int) =~= fv);
        }
        acc
    }

    /// Declared errors across all open files, clamped into `u64`.
    pub fn aggregate_errors(&self) -> (r: u64)
        ensures
            r == saturate_u64(agg_errors(self.files.deep_view())),
    {
        let ghost fv = self.files.deep_view();
        let mut acc: u64 = 0;
        let mut i: usize = 0;
        while i < self.files.len()
            invariant
                0 <= i <= self.files@.len(),
                fv == self.files.deep_view(),
                fv.len() == self.files@.len(),
                acc == saturate_u64(agg_errors(fv.take(i as int))),
            decreases self.files@.len() - i,
        {
            proof {
                lemma_agg_take_step(fv, i as int);
                lemma_agg_nonneg(fv.take(i as int));
            }
            let t = self.files[i].data.total_errors();
            acc = acc.saturating_add(t);
            i = i + 1;
        }
        proof {
            assert(fv.take(fv.len() as int) =~= fv);
        }
        acc
    }

    /// Skip totals across all open files, clamped into `u64`.
    pub fn aggregate_skipped(&self) -> (r: u64)
        ensures
            r == saturate_u64(agg_skipped(self.files.deep_view())),
    {
        let ghost fv = self.files.deep_view();
        let mut acc: u64 = 0;
        let mut i: usize = 0;
        while i < self.files.len()
            invariant
                0 <= i <= self.files@.len(),
                fv == self.files.deep_view(),
                fv.len() == self.files@.len(),
                acc == saturate_u64(agg_skipped(fv.take(i as int))),
            decreases self.files@.len() - i,
        {
            proof {
                lemma_agg_take_step(fv, i as int);
                lemma_agg_nonneg(fv.take(i as int));
            }
            let t = self.files[i].data.total_skipped();
            acc = acc.saturating_add(t);
            i = i + 1;
        }
        proof {
            assert(fv.take(fv.len() as int) =~= fv);
        }
        acc
    }
}

/// What one key press does to the session.
pub open spec fn spec_handle_key(a: App, key: KeyPress) -> App {
    match key.key {
        Key::Char(c) => {
            if c == 'q' {
                App { should_quit: true, ..a }
            } else if c == 'c' && key.ctrl {
                App { should_quit: true, ..a }
            } else if c == 'j' {
                a.spec_select_next()
            } else if c == 'k' {
                a.spec_select_prev()
            } else if c == 'g' {
                a.spec_select_first()
            } else if c == 'G' {
                a.spec_select_last()
            } else if c == 'l' {
                a.spec_enter()
            } else if c == 'h' {
                a.spec_go_back()
            } else {
                a
            }
        },
        Key::Down => a.spec_select_next(),
        Key::Up => a.spec_select_prev(),
        Key::Home => a.spec_select_first(),
        Key::End => a.spec_select_last(),
        Key::PageDown => a.spec_select_next_n(10),
        Key::PageUp => a.spec_select_prev_n(10),
        Key::Enter => a.spec_enter(),
        Key::Right => a.spec_enter(),
        Key::Esc => a.spec_go_back(),
        Key::Left => a.spec_go_back(),
        Key::Backspace => a.spec_go_back(),
        Key::Tab => a.spec_next_file(),
        Key::BackTab => a.spec_prev_file(),
        Key::Other => a,
    }
}

/// Applies one key press to the session.
pub fn handle_key(app: &mut App, key: KeyPress)
    requires
        old(app).wf(),
    ensures
        *final(app) == spec_handle_key(*old(app), key),
        final(app).wf(),
{
    match key.key {
        Key::Char(c) => {
            if c == 'q' {
                app.should_quit = true;
            } else if c == 'c' && key.ctrl {
                app.should_quit = true;
            } else if c == 'j' {
                app.select_next();
            } else if c == 'k' {
                app.select_prev();
            } else if c == 'g' {
                app.select_first();
            } else if c == 'G' {
                app.select_last();
            } else if c == 'l' {
                app.enter();
            } else if c == 'h' {
                app.go_back();
            }
        },
        Key::Down => app.select_next(),
        Key::Up => app.select_prev(),
        Key::Home => app.select_first(),
        Key::End => app.select_last(),
        Key::PageDown => app.page_down(),
        Key::PageUp => app.page_up(),
        Key::Enter => app.enter(),
        Key::Right => app.enter(),
        Key::Esc => app.go_back(),
        Key::Left => app.go_back(),
        Key::Backspace => app.go_back(),
        Key::Tab => app.next_file(),
        Key::BackTab => app.prev_file(),
        Key::Other => {},
    }
}

/// A display string cut to a width: a short string stands as it is, a long
/// one keeps its head and ends in three dots.
pub open spec fn spec_truncate(s: Seq<char>, max_len: int) -> Seq<char> {
    if s.len() <= max_len {
        s
    } else {
        s.subrange(
            0,
            if max_len >= 3 {
                max_len - 3
            } else {
                0
            },
        ) + "..."@
    }
}

/// Cuts a display string to a width, counted in characters.
pub fn truncate_str(s: &str, max_len: usize) -> (r: String)
    ensures
        r@ == spec_truncate(s@, max_len as int),
{
    let n = s.unicode_len();
    if n <= max_len {
        String::from_str(s)
    } else {
        let cut: usize = if max_len >= 3 {
            max_len - 3
        } else {
            0
        };
        let head = s.substring_char(0, cut);
        let mut r = String::from_str(head);
        r.append("...");
        r
    }
}

} // verus!
