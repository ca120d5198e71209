//! From a parsed document to the report model: root-convention detection,
//! attribute and child-element mapping, and the whole-document entry point.

use vstd::prelude::*;
use crate::error::ParseError;
use crate::model::CaseV;
use crate::model::Failure;
use crate::model::FailureV;
use crate::model::Properties;
use crate::model::PropertiesV;
use crate::model::Property;
use crate::model::PropertyV;
use crate::model::Skipped;
use crate::model::SkippedV;
use crate::model::SuiteV;
use crate::model::SuitesV;
use crate::model::TestCase;
use crate::model::TestError;
use crate::model::TestErrorV;
use crate::model::TestSuite;
use crate::model::TestSuites;
use crate::text::eq_range_str;
use crate::text::parse_u64_range;
use crate::text::spec_parse_u64;
use crate::text::str_to_chars;
use crate::xml::elem_view;
use crate::xml::elems_view;
use crate::xml::lemma_elems_view;
use crate::xml::parse_document;
use crate::xml::spec_name_end;
use crate::xml::spec_parse_document;
use crate::xml::spec_skip_misc;
use crate::xml::skip_misc;
use crate::xml::name_end;
use crate::xml::XElemV;
use crate::xml::XmlElem;

verus! {

broadcast use crate::text::lemma_chars_deep_view;

/// Which of the two root conventions a document uses.
#[derive(Debug, Clone, Copy, PartialEq, Eq, Structural)]
pub enum RootKind {
    /// A wrapper element whose children are the suites.
    WrapperRoot,
    /// A single suite element standing as the document root.
    BareSuiteRoot,
}

/// Prefix-based root detection: the name of the first element tag after the
/// leading declarations decides, and only a tag named `testsuite` makes the
/// document a bare-suite one.
pub open spec fn spec_detect_root(s: Seq<char>) -> RootKind {
    match spec_skip_misc(s, 0) {
        Some(i) => {
            if i < s.len() && s[i] == '<' && s.subrange(i + 1, spec_name_end(s, i + 1))
                == "testsuite"@ {
                RootKind::BareSuiteRoot
            } else {
                RootKind::WrapperRoot
            }
        },
        None => RootKind::WrapperRoot,
    }
}

/// Detects the root convention of a document by its first element tag.
pub fn detect_root(xml: &str) -> (r: RootKind)
    ensures
        r == spec_detect_root(xml@),
{
    let cs = str_to_chars(xml);
    match skip_misc(&cs, 0) {
        Some(i) => {
            if i < cs.len() && cs[i] == '<' {
                let ne = name_end(&cs, i + 1);
                if eq_range_str(&cs, i + 1, ne, "testsuite") {
                    RootKind::BareSuiteRoot
                } else {
                    RootKind::WrapperRoot
                }
            } else {
                RootKind::WrapperRoot
            }
        },
        None => RootKind::WrapperRoot,
    }
}

/// The value of the first attribute with the given name, if any.
pub open spec fn spec_attr_of(attrs: Seq<(Seq<char>, Seq<char>)>, name: Seq<char>) -> Option<
    Seq<char>,
>
    decreases attrs.len(),
{
    if attrs.len() == 0 {
        None
    } else if attrs[0].0 == name {
        Some(attrs[0].1)
    } else {
        spec_attr_of(attrs.skip(1), name)
    }
}

/// The value of the named attribute, or the empty string when absent.
pub open spec fn attr_or_empty(attrs: Seq<(Seq<char>, Seq<char>)>, name: Seq<char>) -> Seq<char> {
    match spec_attr_of(attrs, name) {
        Some(v) => v,
        None => Seq::empty(),
    }
}

/// A declared counter: zero when the attribute is absent, its parsed value
/// when it is a well-formed number, and a failure otherwise.
pub open spec fn spec_counter(attrs: Seq<(Seq<char>, Seq<char>)>, name: Seq<char>) -> Option<u64> {
    match spec_attr_of(attrs, name) {
        None => Some(0u64),
        Some(v) => spec_parse_u64(v),
    }
}

/// An optional declared counter: absent stays absent, present must parse.
pub open spec fn spec_opt_counter(attrs: Seq<(Seq<char>, Seq<char>)>, name: Seq<char>) -> Option<
    Option<u64>,
> {
    match spec_attr_of(attrs, name) {
        None => Some(None),
        Some(v) => match spec_parse_u64(v) {
            Some(k) => Some(Some(k)),
            None => None,
        },
    }
}

/// The first child element with the given name, if any.
pub open spec fn spec_first_child(children: Seq<XElemV>, name: Seq<char>) -> Option<XElemV>
    decreases children.len(),
{
    if children.len() == 0 {
        None
    } else if children[0].name == name {
        Some(children[0])
    } else {
        spec_first_child(children.skip(1), name)
    }
}

/// The test case an element describes; every shape of element is accepted.
pub open spec fn spec_case_of(e: XElemV) -> CaseV {
    CaseV {
        classname: spec_attr_of(e.attrs, "classname"@),
        name: attr_or_empty(e.attrs, "name"@),
        time: spec_attr_of(e.attrs, "time"@),
        file: spec_attr_of(e.attrs, "file"@),
        failure: match spec_first_child(e.children, "failure"@) {
            Some(f) => Some(
                FailureV { message: spec_attr_of(f.attrs, "message"@), body: f.text },
            ),
            None => None,
        },
        error: match spec_first_child(e.children, "error"@) {
            Some(f) => Some(
                TestErrorV { message: spec_attr_of(f.attrs, "message"@), body: f.text },
            ),
            None => None,
        },
        skipped: match spec_first_child(e.children, "skipped"@) {
            Some(k) => Some(SkippedV { message: k.text }),
            None => None,
        },
        system_out: match spec_first_child(e.children, "system-out"@) {
            Some(o) => o.text,
            None => None,
        },
        system_err: match spec_first_child(e.children, "system-err"@) {
            Some(o) => o.text,
            None => None,
        },
    }
}

/// The test cases among a run of child elements, in order.
pub open spec fn spec_cases_of(children: Seq<XElemV>) -> Seq<CaseV>
    decreases children.len(),
{
    if children.len() == 0 {
        Seq::empty()
    } else if children[0].name == "testcase"@ {
        seq![spec_case_of(children[0])] + spec_cases_of(children.skip(1))
    } else {
        spec_cases_of(children.skip(1))
    }
}

/// The properties among a run of child elements; each one must carry both
/// required attributes.
pub open spec fn spec_props_of(children: Seq<XElemV>) -> Option<Seq<PropertyV>>
    decreases children.len(),
{
    if children.len() == 0 {
        Some(Seq::empty())
    } else if children[0].name == "property"@ {
        match (spec_attr_of(children[0].attrs, "name"@), spec_attr_of(
            children[0].attrs,
            "value"@,
        )) {
            (Some(n), Some(v)) => match spec_props_of(children.skip(1)) {
                Some(rest) => Some(seq![PropertyV { name: n, value: v }] + rest),
                None => None,
            },
            _ => None,
        }
    } else {
        spec_props_of(children.skip(1))
    }
}

/// The suite an element describes: its declared counters must parse, its
/// property list must be well formed.
pub open spec fn spec_suite_of(e: XElemV) -> Option<SuiteV> {
    match (spec_counter(e.attrs, "tests"@), spec_counter(e.attrs, "failures"@), spec_counter(
        e.attrs,
        "errors"@,
    ), spec_opt_counter(e.attrs, "skipped"@)) {
        (Some(t), Some(f), Some(er), Some(sk)) => {
            let props = match spec_first_child(e.children, "properties"@) {
                None => Some(None),
                Some(pe) => match spec_props_of(pe.children) {
                    Some(ps) => Some(Some(PropertiesV { properties: ps })),
                    None => None,
                },
            };
            match props {
                Some(p) => Some(
                    SuiteV {
                        name: attr_or_empty(e.attrs, "name"@),
                        timestamp: spec_attr_of(e.attrs, "timestamp"@),
                        time: spec_attr_of(e.attrs, "time"@),
                        tests: t,
                        failures: f,
                        errors: er,
                        skipped: sk,
                        properties: p,
                        test_cases: spec_cases_of(e.children),
                    },
                ),
                None => None,
            }
        },
        _ => None,
    }
}

/// The suites among a run of child elements, in order.
pub open spec fn spec_suites_of(children: Seq<XElemV>) -> Option<Seq<SuiteV>>
    decreases children.len(),
{
    if children.len() == 0 {
        Some(Seq::empty())
    } else if children[0].name == "testsuite"@ {
        match spec_suite_of(children[0]) {
            Some(su) => match spec_suites_of(children.skip(1)) {
                Some(rest) => Some(seq![su] + rest),
                None => None,
            },
            None => None,
        }
    } else {
        spec_suites_of(children.skip(1))
    }
}

/// The report a wrapper root describes: its own optional summary counters
/// and the suites among its children.
pub open spec fn spec_wrapper_report(root: XElemV) -> Option<SuitesV> {
    match (spec_opt_counter(root.attrs, "tests"@), spec_opt_counter(
        root.attrs,
        "failures"@,
    ), spec_opt_counter(root.attrs, "errors"@), spec_opt_counter(root.attrs, "skipped"@)) {
        (Some(t), Some(f), Some(er), Some(sk)) => match spec_suites_of(root.children) {
            Some(ss) => Some(
                SuitesV { tests: t, failures: f, errors: er, skipped: sk, suites: ss },
            ),
            None => None,
        },
        _ => None,
    }
}

/// The report a whole document describes: the root convention decides
/// whether the root element is the one suite or the wrapper, and a bare
/// suite root hands its own counters up as the report's declared totals.
pub open spec fn spec_parse_report(s: Seq<char>) -> Option<SuitesV> {
    match spec_parse_document(s) {
        Some(root) => match spec_detect_root(s) {
            RootKind::BareSuiteRoot => match spec_suite_of(root) {
                Some(su) => Some(
                    SuitesV {
                        tests: Some(su.tests),
                        failures: Some(su.failures),
                        errors: Some(su.errors),
                        skipped: su.skipped,
                        suites: seq![su],
                    },
                ),
                None => None,
            },
            RootKind::WrapperRoot => spec_wrapper_report(root),
        },
        None => None,
    }
}

/// A bare-suite document that parses yields a report with exactly one suite
/// whose declared counters stand as the report's own totals.
pub proof fn lemma_bare_root_synthesis(s: Seq<char>)
    requires
        spec_detect_root(s) is BareSuiteRoot,
        spec_parse_report(s) is Some,
    ensures
        spec_parse_report(s)->Some_0.suites.len() == 1,
        spec_parse_report(s)->Some_0.tests == Some(spec_parse_report(s)->Some_0.suites[0].tests),
        spec_parse_report(s)->Some_0.failures == Some(
            spec_parse_report(s)->Some_0.suites[0].failures,
        ),
        spec_parse_report(s)->Some_0.errors == Some(spec_parse_report(s)->Some_0.suites[0].errors),
        spec_parse_report(s)->Some_0.skipped == spec_parse_report(s)->Some_0.suites[0].skipped,
{
}

/// How many child elements carry the given name.
pub open spec fn count_named(children: Seq<XElemV>, name: Seq<char>) -> int
    decreases children.len(),
{
    if children.len() == 0 {
        0
    } else if children[0].name == name {
        1 + count_named(children.skip(1), name)
    } else {
        count_named(children.skip(1), name)
    }
}

proof fn lemma_suites_of_len(children: Seq<XElemV>)
    requires
        spec_suites_of(children) is Some,
    ensures
        spec_suites_of(children)->Some_0.len() == count_named(children, "testsuite"@),
    decreases children.len(),
{
    if children.len() > 0 {
        lemma_suites_of_len(children.skip(1));
    }
}

/// A wrapper document that parses yields a report with exactly one suite per
/// child suite element of the root, in order.
pub proof fn lemma_wrapper_suite_count(s: Seq<char>)
    requires
        spec_detect_root(s) is WrapperRoot,
        spec_parse_report(s) is Some,
    ensures
        spec_parse_document(s) is Some,
        spec_parse_report(s)->Some_0.suites.len() == count_named(
            spec_parse_document(s)->Some_0.children,
            "testsuite"@,
        ),
{
    let root = spec_parse_document(s)->Some_0;
    lemma_suites_of_len(root.children);
}

/// Looks the named attribute up, yielding its index.
fn find_attr(attrs: &Vec<(Vec<char>, Vec<char>)>, name: &str) -> (r: Option<usize>)
    ensures
        match r {
            Some(k) => k < attrs@.len() && spec_attr_of(attrs.deep_view(), name@) == Some(
                attrs@[k as int].1@,
            ),
            None => spec_attr_of(attrs.deep_view(), name@) is None,
        },
{
    let ghost av = attrs.deep_view();
    proof {
        assert(av.skip(0) =~= av);
    }
    let mut k: usize = 0;
    while k < attrs.len()
        invariant
            0 <= k <= attrs@.len(),
            av == attrs.deep_view(),
            av.len() == attrs@.len(),
            spec_attr_of(av, name@) == spec_attr_of(av.skip(k as int), name@),
        decreases attrs@.len() - k,
    {
        proof {
            assert(av.skip(k as int)[0] == av[k as int]);
            assert(av.skip(k as int).skip(1) =~= av.skip(k + 1));
            assert(av[k as int] == (attrs@[k as int].0@, attrs@[k as int].1@));
        }
        let nlen = attrs[k].0.len();
        proof {
            assert(attrs@[k as int].0@.subrange(0, nlen as int) =~= attrs@[k as int].0@);
        }
        if eq_range_str(&attrs[k].0, 0, nlen, name) {
            return Some(k);
        }
        k = k + 1;
    }
    proof {
        assert(av.skip(av.len() as int) =~= Seq::<(Seq<char>, Seq<char>)>::empty());
    }
    None
}

/// The named attribute as an owned string, if present.
fn attr_string(attrs: &Vec<(Vec<char>, Vec<char>)>, name: &str) -> (r: Option<String>)
    ensures
        match r {
            Some(st) => spec_attr_of(attrs.deep_view(), name@) == Some(st@),
            None => spec_attr_of(attrs.deep_view(), name@) is None,
        },
{
    match find_attr(attrs, name) {
        Some(k) => {
            let v = &attrs[k].1;
            let n = v.len();
            let st = crate::text::chars_to_string(v, 0, n);
            proof {
                assert(v@.subrange(0, n as int) =~= v@);
            }
            Some(st)
        },
        None => None,
    }
}

/// The named attribute as an owned string, empty when absent.
fn attr_string_or_empty(attrs: &Vec<(Vec<char>, Vec<char>)>, name: &str) -> (r: String)
    ensures
        r@ == attr_or_empty(attrs.deep_view(), name@),
{
    match attr_string(attrs, name) {
        Some(st) => st,
        None => String::new(),
    }
}

/// The named counter attribute, zero when absent, rejected when unparsable.
fn counter_attr(attrs: &Vec<(Vec<char>, Vec<char>)>, name: &str) -> (r: Option<u64>)
    ensures
        r == spec_counter(attrs.deep_view(), name@),
{
    match find_attr(attrs, name) {
        Some(k) => {
            let v = &attrs[k].1;
            let n = v.len();
            let p = parse_u64_range(v, 0, n);
            proof {
                assert(v@.subrange(0, n as int) =~= v@);
            }
            p
        },
        None => Some(0),
    }
}

/// The named optional counter attribute, rejected when unparsable.
fn opt_counter_attr(attrs: &Vec<(Vec<char>, Vec<char>)>, name: &str) -> (r: Option<Option<u64>>)
    ensures
        r == spec_opt_counter(attrs.deep_view(), name@),
{
    match find_attr(attrs, name) {
        Some(k) => {
            let v = &attrs[k].1;
            let n = v.len();
            let p = parse_u64_range(v, 0, n);
            proof {
                assert(v@.subrange(0, n as int) =~= v@);
            }
            match p {
                Some(u) => Some(Some(u)),
                None => None,
            }
        },
        None => Some(None),
    }
}

/// Finds the first child element with the given name, yielding its index.
fn first_child(children: &Vec<XmlElem>, name: &str) -> (r: Option<usize>)
    ensures
        match r {
            Some(k) => k < children@.len() && spec_first_child(elems_view(children@), name@)
                == Some(elem_view(children@[k as int])),
            None => spec_first_child(elems_view(children@), name@) is None,
        },
{
    let ghost cv = elems_view(children@);
    proof {
        lemma_elems_view(children@);
        assert(cv.skip(0) =~= cv);
    }
    let mut k: usize = 0;
    while k < children.len()
        invariant
            0 <= k <= children@.len(),
            cv == elems_view(children@),
            cv.len() == children@.len(),
            forall|t: int| 0 <= t < children@.len() ==> cv[t] == elem_view(children@[t]),
            spec_first_child(cv, name@) == spec_first_child(cv.skip(k as int), name@),
        decreases children@.len() - k,
    {
        proof {
            assert(cv.skip(k as int)[0] == cv[k as int]);
            assert(cv.skip(k as int).skip(1) =~= cv.skip(k + 1));
        }
        let nlen = children[k].name.len();
        proof {
            assert(children@[k as int].name@.subrange(0, nlen as int) =~= children@[k as
                int].name@);
        }
        if eq_range_str(&children[k].name, 0, nlen, name) {
            return Some(k);
        }
        k = k + 1;
    }
    proof {
        assert(cv.skip(cv.len() as int) =~= Seq::<XElemV>::empty());
    }
    None
}

/// The element's text as an owned string, if there was any.
fn text_string(t: &Option<Vec<char>>) -> (r: Option<String>)
    ensures
        r.deep_view() == t.deep_view(),
{
    match t {
        Some(v) => {
            let n = v.len();
            let st = crate::text::chars_to_string(v, 0, n);
            proof {
                assert(v@.subrange(0, n as int) =~= v@);
            }
            Some(st)
        },
        None => None,
    }
}

/// Builds the test case an element describes.
fn case_of(e: &XmlElem) -> (tc: TestCase)
    ensures
        tc.deep_view() == spec_case_of(elem_view(*e)),
{
    let failure = match first_child(&e.children, "failure") {
        Some(k) => {
            let ch = &e.children[k];
            Some(Failure { message: attr_string(&ch.attrs, "message"), body: text_string(&ch.text) })
        },
        None => None,
    };
    let error = match first_child(&e.children, "error") {
        Some(k) => {
            let ch = &e.children[k];
            Some(
                TestError {
                    message: attr_string(&ch.attrs, "message"),
                    body: text_string(&ch.text),
                },
            )
        },
        None => None,
    };
    let skipped = match first_child(&e.children, "skipped") {
        Some(k) => Some(Skipped { message: text_string(&e.children[k].text) }),
        None => None,
    };
    let system_out = match first_child(&e.children, "system-out") {
        Some(k) => text_string(&e.children[k].text),
        None => None,
    };
    let system_err = match first_child(&e.children, "system-err") {
        Some(k) => text_string(&e.children[k].text),
        None => None,
    };
    TestCase {
        classname: attr_string(&e.attrs, "classname"),
        name: attr_string_or_empty(&e.attrs, "name"),
        time: attr_string(&e.attrs, "time"),
        file: attr_string(&e.attrs, "file"),
        failure,
        error,
        skipped,
        system_out,
        system_err,
    }
}

/// Builds the test cases among a run of child elements.
fn cases_of(children: &Vec<XmlElem>) -> (v: Vec<TestCase>)
    ensures
        v.deep_view() == spec_cases_of(elems_view(children@)),
{
    let ghost cv = elems_view(children@);
    proof {
        lemma_elems_view(children@);
        assert(cv.skip(0) =~= cv);
    }
    let mut out: Vec<TestCase> = Vec::new();
    proof {
        assert(out.deep_view() =~~= Seq::<CaseV>::empty());
        assert(Seq::<CaseV>::empty() + spec_cases_of(cv) =~~= spec_cases_of(cv));
    }
    let mut k: usize = 0;
    while k < children.len()
        invariant
            0 <= k <= children@.len(),
            cv == elems_view(children@),
            cv.len() == children@.len(),
            forall|t: int| 0 <= t < children@.len() ==> cv[t] == elem_view(children@[t]),
            spec_cases_of(cv) == out.deep_view() + spec_cases_of(cv.skip(k as int)),
        decreases children@.len() - k,
    {
        proof {
            assert(cv.skip(k as int)[0] == cv[k as int]);
            assert(cv.skip(k as int).skip(1) =~= cv.skip(k + 1));
        }
        let ghost old_out = out.deep_view();
        let nlen = children[k].name.len();
        if eq_range_str(&children[k].name, 0, nlen, "testcase") {
            proof {
                assert(children@[k as int].name@.subrange(0, nlen as int) =~= children@[k as
                    int].name@);
            }
            let tc = case_of(&children[k]);
            out.push(tc);
            proof {
                assert(out.deep_view() =~~= old_out + seq![spec_case_of(cv[k as int])]);
                assert(out.deep_view() + spec_cases_of(cv.skip(k + 1)) =~~= old_out + (seq![
                    spec_case_of(cv[k as int]),
                ] + spec_cases_of(cv.skip(k + 1))));
            }
        } else {
            proof {
                assert(children@[k as int].name@.subrange(0, nlen as int) =~= children@[k as
                    int].name@);
            }
        }
        k = k + 1;
    }
    proof {
        assert(cv.skip(cv.len() as int) =~= Seq::<XElemV>::empty());
        assert(out.deep_view() + Seq::<CaseV>::empty() =~~= out.deep_view());
    }
    out
}

/// Joins gathered properties with what a run's remainder yields.
pub open spec fn props_append(pre: Seq<PropertyV>, o: Option<Seq<PropertyV>>) -> Option<
    Seq<PropertyV>,
> {
    match o {
        Some(rest) => Some(pre + rest),
        None => None,
    }
}

/// Builds the properties among a run of child elements.
fn props_of(children: &Vec<XmlElem>) -> (r: Option<Vec<Property>>)
    ensures
        match r {
            Some(v) => spec_props_of(elems_view(children@)) == Some(v.deep_view()),
            None => spec_props_of(elems_view(children@)) is None,
        },
{
    let ghost cv = elems_view(children@);
    proof {
        lemma_elems_view(children@);
        assert(cv.skip(0) =~= cv);
    }
    let mut out: Vec<Property> = Vec::new();
    proof {
        assert(out.deep_view() =~~= Seq::<PropertyV>::empty());
        match spec_props_of(cv) {
            Some(rest) => {
                assert(Seq::<PropertyV>::empty() + rest =~~= rest);
            },
            None => {},
        }
    }
    let mut k: usize = 0;
    while k < children.len()
        invariant
            0 <= k <= children@.len(),
            cv == elems_view(children@),
            cv.len() == children@.len(),
            forall|t: int| 0 <= t < children@.len() ==> cv[t] == elem_view(children@[t]),
            spec_props_of(cv) == props_append(out.deep_view(), spec_props_of(cv.skip(k as int))),
        decreases children@.len() - k,
    {
        proof {
            assert(cv.skip(k as int)[0] == cv[k as int]);
            assert(cv.skip(k as int).skip(1) =~= cv.skip(k + 1));
        }
        let ghost old_out = out.deep_view();
        let nlen = children[k].name.len();
        if eq_range_str(&children[k].name, 0, nlen, "property") {
            proof {
                assert(children@[k as int].name@.subrange(0, nlen as int) =~= children@[k as
                    int].name@);
            }
            let nm = attr_string(&children[k].attrs, "name");
            let vl = attr_string(&children[k].attrs, "value");
            match (nm, vl) {
                (Some(n), Some(v)) => {
                    out.push(Property { name: n, value: v });
                    proof {
                        assert(out.deep_view() =~~= old_out + seq![out.deep_view().last()]);
                        assert(forall|rest: Seq<PropertyV>|
                            (old_out + seq![out.deep_view().last()]) + rest =~~= old_out + (seq![
                                out.deep_view().last(),
                            ] + rest));
                    }
                },
                _ => {
                    return None;
                },
            }
        } else {
            proof {
                assert(children@[k as int].name@.subrange(0, nlen as int) =~= children@[k as
                    int].name@);
            }
        }
        k = k + 1;
    }
    proof {
        assert(cv.skip(cv.len() as int) =~= Seq::<XElemV>::empty());
        assert(out.deep_view() + Seq::<PropertyV>::empty() =~~= out.deep_view());
    }
    Some(out)
}

/// Builds the suite an element describes.
fn suite_of(e: &XmlElem) -> (r: Option<TestSuite>)
    ensures
        match r {
            Some(su) => spec_suite_of(elem_view(*e)) == Some(su.deep_view()),
            None => spec_suite_of(elem_view(*e)) is None,
        },
{
    let tests = counter_attr(&e.attrs, "tests");
    let failures = counter_attr(&e.attrs, "failures");
    let errors = counter_attr(&e.attrs, "errors");
    let skipped = opt_counter_attr(&e.attrs, "skipped");
    match (tests, failures, errors, skipped) {
        (Some(t), Some(f), Some(er), Some(sk)) => {
            let properties = match first_child(&e.children, "properties") {
                None => None,
                Some(k) => {
                    match props_of(&e.children[k].children) {
                        Some(ps) => Some(Properties { properties: ps }),
                        None => {
                            return None;
                        },
                    }
                },
            };
            let su = TestSuite {
                name: attr_string_or_empty(&e.attrs, "name"),
                timestamp: attr_string(&e.attrs, "timestamp"),
                time: attr_string(&e.attrs, "time"),
                tests: t,
                failures: f,
                errors: er,
                skipped: sk,
                properties,
                test_cases: cases_of(&e.children),
            };
            Some(su)
        },
        _ => None,
    }
}

/// Builds the report a wrapper root describes.
fn wrapper_report(root: &XmlElem) -> (r: Option<TestSuites>)
    ensures
        match r {
            Some(rep) => spec_wrapper_report(elem_view(*root)) == Some(rep.deep_view()),
            None => spec_wrapper_report(elem_view(*root)) is None,
        },
{
    let tests = opt_counter_attr(&root.attrs, "tests");
    let failures = opt_counter_attr(&root.attrs, "failures");
    let errors = opt_counter_attr(&root.attrs, "errors");
    let skipped = opt_counter_attr(&root.attrs, "skipped");
    match (tests, failures, errors, skipped) {
        (Some(t), Some(f), Some(er), Some(sk)) => {
            let ghost cv = elems_view(root.children@);
            proof {
                lemma_elems_view(root.children@);
                assert(cv.skip(0) =~= cv);
            }
            let mut suites: Vec<TestSuite> = Vec::new();
            proof {
                assert(suites.deep_view() =~~= Seq::<SuiteV>::empty());
                match spec_suites_of(cv) {
                    Some(rest) => {
                        assert(Seq::<SuiteV>::empty() + rest =~~= rest);
                    },
                    None => {},
                }
            }
            let mut k: usize = 0;
            while k < root.children.len()
                invariant
                    0 <= k <= root.children@.len(),
                    cv == elems_view(root.children@),
                    cv.len() == root.children@.len(),
                    forall|t2: int|
                        0 <= t2 < root.children@.len() ==> cv[t2] == elem_view(
                            root.children@[t2],
                        ),
                    spec_suites_of(cv) == match spec_suites_of(cv.skip(k as int)) {
                        Some(rest) => Some(suites.deep_view() + rest),
                        None => None::<Seq<SuiteV>>,
                    },
                decreases root.children@.len() - k,
            {
                proof {
                    assert(cv.skip(k as int)[0] == cv[k as int]);
                    assert(cv.skip(k as int).skip(1) =~= cv.skip(k + 1));
                }
                let ghost old_s = suites.deep_view();
                let nlen = root.children[k].name.len();
                if eq_range_str(&root.children[k].name, 0, nlen, "testsuite") {
                    proof {
                        assert(root.children@[k as int].name@.subrange(0, nlen as int)
                            =~= root.children@[k as int].name@);
                    }
                    match suite_of(&root.children[k]) {
                        Some(su) => {
                            suites.push(su);
                            proof {
                                assert(suites.deep_view() =~~= old_s + seq![
                                    suites.deep_view().last(),
                                ]);
                                assert(forall|rest: Seq<SuiteV>|
                                    (old_s + seq![suites.deep_view().last()]) + rest =~~= old_s
                                        + (seq![suites.deep_view().last()] + rest));
                            }
                        },
                        None => {
                            return None;
                        },
                    }
                } else {
                    proof {
                        assert(root.children@[k as int].name@.subrange(0, nlen as int)
                            =~= root.children@[k as int].name@);
                    }
                }
                k = k + 1;
            }
            proof {
                assert(cv.skip(cv.len() as int) =~= Seq::<XElemV>::empty());
                assert(suites.deep_view() + Seq::<SuiteV>::empty() =~~= suites.deep_view());
            }
            Some(TestSuites { tests: t, failures: f, errors: er, skipped: sk, suites })
        },
        _ => None,
    }
}

/// Parses a whole report document. The result is exactly what
/// `spec_parse_report` describes, and a document it rejects yields a
/// malformed-document error.
pub fn parse_str(xml: &str) -> (r: Result<TestSuites, ParseError>)
    ensures
        match r {
            Ok(rep) => spec_parse_report(xml@) == Some(rep.deep_view()),
            Err(e) => spec_parse_report(xml@) is None && e is MalformedXml,
        },
{
    let cs = str_to_chars(xml);
    match parse_document(&cs) {
        Some(root) => {
            let bare = {
                match skip_misc(&cs, 0) {
                    Some(i) => {
                        if i < cs.len() && cs[i] == '<' {
                            let ne = name_end(&cs, i + 1);
                            eq_range_str(&cs, i + 1, ne, "testsuite")
                        } else {
                            false
                        }
                    },
                    None => false,
                }
            };
            proof {
                assert(bare == (spec_detect_root(xml@) is BareSuiteRoot));
            }
            if bare {
                match suite_of(&root) {
                    Some(su) => {
                        let tests = su.tests;
                        let failures = su.failures;
                        let errors = su.errors;
                        let skipped = su.skipped;
                        let ghost suv = su.deep_view();
                        let mut suites: Vec<TestSuite> = Vec::new();
                        suites.push(su);
                        proof {
                            assert(suites.deep_view() =~~= seq![suv]);
                        }
                        Ok(
                            TestSuites {
                                tests: Some(tests),
                                failures: Some(failures),
                                errors: Some(errors),
                                skipped,
                                suites,
                            },
                        )
                    },
                    None => Err(
                        ParseError::MalformedXml {
                            detail: String::from_str(
                                "the document does not fit the report shape",
                            ),
                            path: None,
                        },
                    ),
                }
            } else {
                match wrapper_report(&root) {
                    Some(rep) => Ok(rep),
                    None => Err(
                        ParseError::MalformedXml {
                            detail: String::from_str(
                                "the document does not fit the report shape",
                            ),
                            path: None,
                        },
                    ),
                }
            }
        },
        None => Err(
            ParseError::MalformedXml {
                detail: String::from_str("the text is not a well-formed document"),
                path: None,
            },
        ),
    }
}

} // verus!
