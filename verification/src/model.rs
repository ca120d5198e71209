//! The typed report model: suites, test cases, markers, and the aggregate
//! counters derived from them.

use vstd::prelude::*;

verus! {

/// The single outcome of a test case, derived from its markers by a fixed
/// precedence: failure, then error, then skipped, else passed.
#[derive(Debug, Clone, Copy, PartialEq, Eq, Structural)]
pub enum TestStatus {
    Passed,
    Failed,
    Errored,
    Skipped,
}

/// A parsed report: optional declared totals from a wrapper root, and the
/// suites in document order.
#[derive(Debug, Clone)]
pub struct TestSuites {
    pub tests: Option<u64>,
    pub failures: Option<u64>,
    pub errors: Option<u64>,
    pub skipped: Option<u64>,
    pub suites: Vec<TestSuite>,
}

/// One suite: its declared counters and its test cases in document order.
/// The `time` attribute is kept as the verbatim attribute text.
#[derive(Debug, Clone)]
pub struct TestSuite {
    pub name: String,
    pub timestamp: Option<String>,
    pub time: Option<String>,
    pub tests: u64,
    pub failures: u64,
    pub errors: u64,
    pub skipped: Option<u64>,
    pub properties: Option<Properties>,
    pub test_cases: Vec<TestCase>,
}

/// The property list of a suite, in document order; names need not be unique.
#[derive(Debug, Clone)]
pub struct Properties {
    pub properties: Vec<Property>,
}

/// One name/value property of a suite.
#[derive(Debug, Clone)]
pub struct Property {
    pub name: String,
    pub value: String,
}

/// One test case: identification, optional markers, and captured output.
/// The `time` attribute is kept as the verbatim attribute text.
#[derive(Debug, Clone)]
pub struct TestCase {
    pub classname: Option<String>,
    pub name: String,
    pub time: Option<String>,
    pub file: Option<String>,
    pub failure: Option<Failure>,
    pub error: Option<TestError>,
    pub skipped: Option<Skipped>,
    pub system_out: Option<String>,
    pub system_err: Option<String>,
}

/// A failure marker: an optional short message attribute and an optional
/// long-form body taken from the element's text.
#[derive(Debug, Clone)]
pub struct Failure {
    pub message: Option<String>,
    pub body: Option<String>,
}

/// An error marker, shaped like a failure marker.
#[derive(Debug, Clone)]
pub struct TestError {
    pub message: Option<String>,
    pub body: Option<String>,
}

/// A skipped marker with an optional free-text message.
#[derive(Debug, Clone)]
pub struct Skipped {
    pub message: Option<String>,
}

/// Mathematical mirror of `TestSuites`.
pub ghost struct SuitesV {
    pub tests: Option<u64>,
    pub failures: Option<u64>,
    pub errors: Option<u64>,
    pub skipped: Option<u64>,
    pub suites: Seq<SuiteV>,
}

/// Mathematical mirror of `TestSuite`.
pub ghost struct SuiteV {
    pub name: Seq<char>,
    pub timestamp: Option<Seq<char>>,
    pub time: Option<Seq<char>>,
    pub tests: u64,
    pub failures: u64,
    pub errors: u64,
    pub skipped: Option<u64>,
    pub properties: Option<PropertiesV>,
    pub test_cases: Seq<CaseV>,
}

/// Mathematical mirror of `Properties`.
pub ghost struct PropertiesV {
    pub properties: Seq<PropertyV>,
}

/// Mathematical mirror of `Property`.
pub ghost struct PropertyV {
    pub name: Seq<char>,
    pub value: Seq<char>,
}

/// Mathematical mirror of `TestCase`.
pub ghost struct CaseV {
    pub classname: Option<Seq<char>>,
    pub name: Seq<char>,
    pub time: Option<Seq<char>>,
    pub file: Option<Seq<char>>,
    pub failure: Option<FailureV>,
    pub error: Option<TestErrorV>,
    pub skipped: Option<SkippedV>,
    pub system_out: Option<Seq<char>>,
    pub system_err: Option<Seq<char>>,
}

/// Mathematical mirror of `Failure`.
pub ghost struct FailureV {
    pub message: Option<Seq<char>>,
    pub body: Option<Seq<char>>,
}

/// Mathematical mirror of `TestError`.
pub ghost struct TestErrorV {
    pub message: Option<Seq<char>>,
    pub body: Option<Seq<char>>,
}

/// Mathematical mirror of `Skipped`.
pub ghost struct SkippedV {
    pub message: Option<Seq<char>>,
}

impl DeepView for Failure {
    type V = FailureV;

    open spec fn deep_view(&self) -> FailureV {
        FailureV { message: self.message.deep_view(), body: self.body.deep_view() }
    }
}

impl DeepView for TestError {
    type V = TestErrorV;

    open spec fn deep_view(&self) -> TestErrorV {
        TestErrorV { message: self.message.deep_view(), body: self.body.deep_view() }
    }
}

impl DeepView for Skipped {
    type V = SkippedV;

    open spec fn deep_view(&self) -> SkippedV {
        SkippedV { message: self.message.deep_view() }
    }
}

impl DeepView for TestCase {
    type V = CaseV;

    open spec fn deep_view(&self) -> CaseV {
        CaseV {
            classname: self.classname.deep_view(),
            name: self.name.deep_view(),
            time: self.time.deep_view(),
            file: self.file.deep_view(),
            failure: self.failure.deep_view(),
            error: self.error.deep_view(),
            skipped: self.skipped.deep_view(),
            system_out: self.system_out.deep_view(),
            system_err: self.system_err.deep_view(),
        }
    }
}

impl DeepView for Property {
    type V = PropertyV;

    open spec fn deep_view(&self) -> PropertyV {
        PropertyV { name: self.name.deep_view(), value: self.value.deep_view() }
    }
}

impl DeepView for Properties {
    type V = PropertiesV;

    open spec fn deep_view(&self) -> PropertiesV {
        PropertiesV { properties: self.properties.deep_view() }
    }
}

impl DeepView for TestSuite {
    type V = SuiteV;

    open spec fn deep_view(&self) -> SuiteV {
        SuiteV {
            name: self.name.deep_view(),
            timestamp: self.timestamp.deep_view(),
            time: self.time.deep_view(),
            tests: self.tests,
            failures: self.failures,
            errors: self.errors,
            skipped: self.skipped,
            properties: self.properties.deep_view(),
            test_cases: self.test_cases.deep_view(),
        }
    }
}

impl DeepView for TestSuites {
    type V = SuitesV;

    open spec fn deep_view(&self) -> SuitesV {
        SuitesV {
            tests: self.tests,
            failures: self.failures,
            errors: self.errors,
            skipped: self.skipped,
            suites: self.suites.deep_view(),
        }
    }
}

/// The outcome of a test case: the first present marker wins, in the order
/// failure, error, skipped; a case with no marker passed.
pub open spec fn spec_status(c: CaseV) -> TestStatus {
    if c.failure is Some {
        TestStatus::Failed
    } else if c.error is Some {
        TestStatus::Errored
    } else if c.skipped is Some {
        TestStatus::Skipped
    } else {
        TestStatus::Passed
    }
}

impl TestCase {
    /// Classifies this case by the fixed marker precedence.
    pub fn status(&self) -> (r: TestStatus)
        ensures
            r == spec_status(self.deep_view()),
    {
        if self.failure.is_some() {
            TestStatus::Failed
        } else if self.error.is_some() {
            TestStatus::Errored
        } else if self.skipped.is_some() {
            TestStatus::Skipped
        } else {
            TestStatus::Passed
        }
    }
}

/// Classification is total and deterministic: every case gets exactly one of
/// the four outcomes, each marker combination resolving by precedence, and a
/// case with no markers passes.
pub proof fn lemma_status_classification(c: CaseV)
    ensures
        spec_status(c) is Passed || spec_status(c) is Failed || spec_status(c) is Errored
            || spec_status(c) is Skipped,
        c.failure is Some ==> spec_status(c) is Failed,
        c.failure is None && c.error is Some ==> spec_status(c) is Errored,
        c.failure is None && c.error is None && c.skipped is Some ==> spec_status(c) is Skipped,
        c.failure is None && c.error is None && c.skipped is None ==> spec_status(c) is Passed,
{
}

/// Sum of the declared `tests` counters of a sequence of suites.
pub open spec fn sum_tests(ss: Seq<SuiteV>) -> int
    decreases ss.len(),
{
    if ss.len() == 0 {
        0
    } else {
        sum_tests(ss.drop_last()) + ss.last().tests
    }
}

/// Sum of the declared `failures` counters of a sequence of suites.
pub open spec fn sum_failures(ss: Seq<SuiteV>) -> int
    decreases ss.len(),
{
    if ss.len() == 0 {
        0
    } else {
        sum_failures(ss.drop_last()) + ss.last().failures
    }
}

/// Sum of the declared `errors` counters of a sequence of suites.
pub open spec fn sum_errors(ss: Seq<SuiteV>) -> int
    decreases ss.len(),
{
    if ss.len() == 0 {
        0
    } else {
        sum_errors(ss.drop_last()) + ss.last().errors
    }
}

/// The `skipped` counter of a suite, absence counting as zero.
pub open spec fn skipped_or_zero(s: SuiteV) -> u64 {
    match s.skipped {
        Some(k) => k,
        None => 0u64,
    }
}

/// Sum of the `skipped` counters of a sequence of suites, absence as zero.
pub open spec fn sum_skipped(ss: Seq<SuiteV>) -> int
    decreases ss.len(),
{
    if ss.len() == 0 {
        0
    } else {
        sum_skipped(ss.drop_last()) + skipped_or_zero(ss.last())
    }
}

/// Clamps a non-negative mathematical value into `u64`.
pub open spec fn saturate_u64(v: int) -> u64 {
    if v > u64::MAX {
        u64::MAX as u64
    } else if v < 0 {
        0u64
    } else {
        v as u64
    }
}

/// Total declared tests across the suites, clamped into `u64`.
pub open spec fn spec_total_tests(r: SuitesV) -> u64 {
    saturate_u64(sum_tests(r.suites))
}

/// Total declared failures across the suites, clamped into `u64`.
pub open spec fn spec_total_failures(r: SuitesV) -> u64 {
    saturate_u64(sum_failures(r.suites))
}

/// Total declared errors across the suites, clamped into `u64`.
pub open spec fn spec_total_errors(r: SuitesV) -> u64 {
    saturate_u64(sum_errors(r.suites))
}

/// Total declared skips across the suites, clamped into `u64`.
pub open spec fn spec_total_skipped(r: SuitesV) -> u64 {
    saturate_u64(sum_skipped(r.suites))
}

/// Derived passed count: total tests minus the failed, errored and skipped
/// counts, floored at zero.
pub open spec fn spec_total_passed(r: SuitesV) -> u64 {
    saturate_u64(
        spec_total_tests(r) - saturate_u64(
            sum_failures(r.suites) + sum_errors(r.suites) + sum_skipped(r.suites),
        ),
    )
}

proof fn lemma_sum_take_step(ss: Seq<SuiteV>, i: int)
    requires
        0 <= i < ss.len(),
    ensures
        sum_tests(ss.take(i + 1)) == sum_tests(ss.take(i)) + ss[i].tests,
        sum_failures(ss.take(i + 1)) == sum_failures(ss.take(i)) + ss[i].failures,
        sum_errors(ss.take(i + 1)) == sum_errors(ss.take(i)) + ss[i].errors,
        sum_skipped(ss.take(i + 1)) == sum_skipped(ss.take(i)) + skipped_or_zero(ss[i]),
{
    assert(ss.take(i + 1).drop_last() =~= ss.take(i));
    assert(ss.take(i + 1).last() == ss[i]);
}

impl TestSuites {
    /// Sum of the suites' declared `tests` counters, clamped into `u64`.
    pub fn total_tests(&self) -> (r: u64)
        ensures
            r == spec_total_tests(self.deep_view()),
            sum_tests(self.deep_view().suites) <= u64::MAX ==> r == sum_tests(
                self.deep_view().suites,
            ),
    {
        let ghost ss = self.deep_view().suites;
        let mut acc: u64 = 0;
        let mut i: usize = 0;
        while i < self.suites.len()
            invariant
                0 <= i <= self.suites.len(),
                ss == self.deep_view().suites,
                ss.len() == self.suites.len(),
                acc == saturate_u64(sum_tests(ss.take(i as int))),
            decreases self.suites.len() - i,
        {
            proof {
                lemma_sum_take_step(ss, i as int);
                lemma_sums_nonneg(ss.take(i as int));
            }
            acc = acc.saturating_add(self.suites[i].tests);
            i = i + 1;
        }
        proof {
            assert(ss.take(ss.len() as int) =~= ss);
            lemma_sums_nonneg(ss);
        }
        acc
    }

    /// Sum of the suites' declared `failures` counters, clamped into `u64`.
    pub fn total_failures(&self) -> (r: u64)
        ensures
            r == spec_total_failures(self.deep_view()),
            sum_failures(self.deep_view().suites) <= u64::MAX ==> r == sum_failures(
                self.deep_view().suites,
            ),
    {
        let ghost ss = self.deep_view().suites;
        let mut acc: u64 = 0;
        let mut i: usize = 0;
        while i < self.suites.len()
            invariant
                0 <= i <= self.suites.len(),
                ss == self.deep_view().suites,
                ss.len() == self.suites.len(),
                acc == saturate_u64(sum_failures(ss.take(i as int))),
            decreases self.suites.len() - i,
        {
            proof {
                lemma_sum_take_step(ss, i as int);
                lemma_sums_nonneg(ss.take(i as int));
            }
            acc = acc.saturating_add(self.suites[i].failures);
            i = i + 1;
        }
        proof {
            assert(ss.take(ss.len() as int) =~= ss);
            lemma_sums_nonneg(ss);
        }
        acc
    }

    /// Sum of the suites' declared `errors` counters, clamped into `u64`.
    pub fn total_errors(&self) -> (r: u64)
        ensures
            r == spec_total_errors(self.deep_view()),
            sum_errors(self.deep_view().suites) <= u64::MAX ==> r == sum_errors(
                self.deep_view().suites,
            ),
    {
        let ghost ss = self.deep_view().suites;
        let mut acc: u64 = 0;
        let mut i: usize = 0;
        while i < self.suites.len()
            invariant
                0 <= i <= self.suites.len(),
                ss == self.deep_view().suites,
                ss.len() == self.suites.len(),
                acc == saturate_u64(sum_errors(ss.take(i as int))),
            decreases self.suites.len() - i,
        {
            proof {
                lemma_sum_take_step(ss, i as int);
                lemma_sums_nonneg(ss.take(i as int));
            }
            acc = acc.saturating_add(self.suites[i].errors);
            i = i + 1;
        }
        proof {
            assert(ss.take(ss.len() as int) =~= ss);
            lemma_sums_nonneg(ss);
        }
        acc
    }

    /// Sum of the suites' `skipped` counters, absence as zero, clamped into
    /// `u64`.
    pub fn total_skipped(&self) -> (r: u64)
        ensures
            r == spec_total_skipped(self.deep_view()),
            sum_skipped(self.deep_view().suites) <= u64::MAX ==> r == sum_skipped(
                self.deep_view().suites,
            ),
    {
        let ghost ss = self.deep_view().suites;
        let mut acc: u64 = 0;
        let mut i: usize = 0;
        while i < self.suites.len()
            invariant
                0 <= i <= self.suites.len(),
                ss == self.deep_view().suites,
                ss.len() == self.suites.len(),
                acc == saturate_u64(sum_skipped(ss.take(i as int))),
            decreases self.suites.len() - i,
        {
            proof {
                lemma_sum_take_step(ss, i as int);
                lemma_sums_nonneg(ss.take(i as int));
            }
            let k = match self.suites[i].skipped {
                Some(k) => k,
                None => 0u64,
            };
            acc = acc.saturating_add(k);
            i = i + 1;
        }
        proof {
            assert(ss.take(ss.len() as int) =~= ss);
            lemma_sums_nonneg(ss);
        }
        acc
    }

    /// Tests that neither failed, errored nor were skipped, floored at zero.
    pub fn total_passed(&self) -> (r: u64)
        ensures
            r == spec_total_passed(self.deep_view()),
    {
        proof {
            lemma_sums_nonneg(self.deep_view().suites);
        }
        let total = self.total_tests();
        let non_pass = self.total_failures().saturating_add(self.total_errors()).saturating_add(
            self.total_skipped(),
        );
        total.saturating_sub(non_pass)
    }
}

/// The derived passed count equals the total test count minus the failure,
/// error and skip totals, floored at zero — stated over the clamped totals
/// that the accessors return.
pub proof fn lemma_total_passed_formula(r: SuitesV)
    ensures
        spec_total_passed(r) == saturate_u64(
            spec_total_tests(r) - spec_total_failures(r) - spec_total_errors(r)
                - spec_total_skipped(r),
        ),
{
    lemma_sums_nonneg(r.suites);
}

/// Each clamped total equals the plain sum of the corresponding suite field
/// whenever that sum fits in `u64`; a report whose declared counters sum
/// beyond `u64::MAX` clamps instead.
pub proof fn lemma_totals_are_sums(r: SuitesV)
    requires
        sum_tests(r.suites) <= u64::MAX,
        sum_failures(r.suites) <= u64::MAX,
        sum_errors(r.suites) <= u64::MAX,
        sum_skipped(r.suites) <= u64::MAX,
    ensures
        spec_total_tests(r) == sum_tests(r.suites),
        spec_total_failures(r) == sum_failures(r.suites),
        spec_total_errors(r) == sum_errors(r.suites),
        spec_total_skipped(r) == sum_skipped(r.suites),
{
    lemma_sums_nonneg(r.suites);
}

/// The four suite-counter sums are never negative.
pub proof fn lemma_sums_nonneg(ss: Seq<SuiteV>)
    ensures
        sum_tests(ss) >= 0,
        sum_failures(ss) >= 0,
        sum_errors(ss) >= 0,
        sum_skipped(ss) >= 0,
    decreases ss.len(),
{
    if ss.len() > 0 {
        lemma_sums_nonneg(ss.drop_last());
    }
}

impl TestSuite {
    /// The suite's own derived passed count: declared tests minus declared
    /// failures, errors and skips, floored at zero.
    pub fn passed(&self) -> (r: u64)
        ensures
            r == saturate_u64(
                self.tests - self.failures - self.errors - skipped_or_zero(self.deep_view()),
            ),
    {
        let k = match self.skipped {
            Some(k) => k,
            None => 0u64,
        };
        self.tests.saturating_sub(self.failures.saturating_add(self.errors).saturating_add(k))
    }
}

} // verus!
