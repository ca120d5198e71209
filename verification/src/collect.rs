//! Collection of many documents at once: recognizing report file names,
//! parsing each named document, and returning the results in ascending
//! filename order.

use vstd::prelude::*;
use crate::error::ParseError;
use crate::model::SuitesV;
use crate::model::TestSuites;
use crate::report::parse_str;
use crate::report::spec_parse_report;

verus! {

broadcast use {vstd::seq_lib::group_to_multiset_ensures, crate::text::lemma_chars_deep_view};

/// Whether a file name carries the recognized report extension: it ends in
/// `.xml` with at least one character before the dot.
pub open spec fn recognized(name: Seq<char>) -> bool {
    name.len() >= 5 && name.subrange(name.len() - 4, name.len() as int) == ".xml"@
}

/// Tests a file name for the recognized report extension.
pub fn recognized_name(name: &str) -> (r: bool)
    ensures
        r == recognized(name@),
{
    let n = name.unicode_len();
    if n < 5 {
        return false;
    }
    proof {
        reveal_strlit(".xml");
    }
    let ghost tail = name@.subrange(name@.len() - 4, name@.len() as int);
    if name.get_char(n - 4) == '.' && name.get_char(n - 3) == 'x' && name.get_char(n - 2) == 'm'
        && name.get_char(n - 1) == 'l' {
        proof {
            assert(tail =~= ".xml"@);
        }
        true
    } else {
        proof {
            assert(tail != ".xml"@) by {
                if tail == ".xml"@ {
                    assert(tail[0] == '.' && tail[1] == 'x' && tail[2] == 'm' && tail[3] == 'l');
                }
            }
        }
        false
    }
}

/// Ascending codepoint order on names, prefixes first.
pub open spec fn lex_le(a: Seq<char>, b: Seq<char>) -> bool
    decreases a.len(),
{
    if a.len() == 0 {
        true
    } else if b.len() == 0 {
        false
    } else if (a[0] as u32) != (b[0] as u32) {
        (a[0] as u32) < (b[0] as u32)
    } else {
        lex_le(a.skip(1), b.skip(1))
    }
}

/// Any two names compare one way or the other.
pub proof fn lemma_lex_total(a: Seq<char>, b: Seq<char>)
    ensures
        lex_le(a, b) || lex_le(b, a),
    decreases a.len(),
{
    if a.len() > 0 && b.len() > 0 && (a[0] as u32) == (b[0] as u32) {
        lemma_lex_total(a.skip(1), b.skip(1));
    }
}

/// The name order is transitive.
pub proof fn lemma_lex_trans(a: Seq<char>, b: Seq<char>, c: Seq<char>)
    requires
        lex_le(a, b),
        lex_le(b, c),
    ensures
        lex_le(a, c),
    decreases a.len(),
{
    if a.len() > 0 && b.len() > 0 && c.len() > 0 && (a[0] as u32) == (b[0] as u32) && (
    b[0] as u32) == (c[0] as u32) {
        lemma_lex_trans(a.skip(1), b.skip(1), c.skip(1));
    }
}

/// Compares two names in ascending codepoint order.
pub fn lex_le_str(a: &str, b: &str) -> (r: bool)
    ensures
        r == lex_le(a@, b@),
{
    let an = a.unicode_len();
    let bn = b.unicode_len();
    proof {
        assert(a@.skip(0) =~= a@);
        assert(b@.skip(0) =~= b@);
    }
    let mut k: usize = 0;
    while k < an && k < bn
        invariant
            0 <= k <= an,
            k <= bn,
            an == a@.len(),
            bn == b@.len(),
            lex_le(a@, b@) == lex_le(a@.skip(k as int), b@.skip(k as int)),
        decreases an - k,
    {
        proof {
            assert(a@.skip(k as int)[0] == a@[k as int]);
            assert(b@.skip(k as int)[0] == b@[k as int]);
            assert(a@.skip(k as int).skip(1) =~= a@.skip(k + 1));
            assert(b@.skip(k as int).skip(1) =~= b@.skip(k + 1));
        }
        let ac = a.get_char(k);
        let bc = b.get_char(k);
        if (ac as u32) != (bc as u32) {
            return (ac as u32) < (bc as u32);
        }
        k = k + 1;
    }
    an <= bn
}

/// What a batch of named documents yields: the recognized names paired with
/// their parsed reports, in the order given; any recognized document that
/// does not parse fails the whole batch.
pub open spec fn spec_collect(es: Seq<(Seq<char>, Seq<char>)>) -> Option<
    Seq<(Seq<char>, SuitesV)>,
>
    decreases es.len(),
{
    if es.len() == 0 {
        Some(Seq::empty())
    } else if recognized(es[0].0) {
        match spec_parse_report(es[0].1) {
            Some(rep) => match spec_collect(es.skip(1)) {
                Some(rest) => Some(seq![(es[0].0, rep)] + rest),
                None => None,
            },
            None => None,
        }
    } else {
        spec_collect(es.skip(1))
    }
}

/// How many of the names carry the recognized extension.
pub open spec fn count_recognized(es: Seq<(Seq<char>, Seq<char>)>) -> int
    decreases es.len(),
{
    if es.len() == 0 {
        0
    } else if recognized(es[0].0) {
        1 + count_recognized(es.skip(1))
    } else {
        count_recognized(es.skip(1))
    }
}

/// A directory scan that succeeds yields exactly one entry per recognized
/// file, whatever else the directory held.
pub proof fn lemma_collect_len(es: Seq<(Seq<char>, Seq<char>)>)
    requires
        spec_collect(es) is Some,
    ensures
        spec_collect(es)->Some_0.len() == count_recognized(es),
    decreases es.len(),
{
    if es.len() > 0 {
        lemma_collect_len(es.skip(1));
    }
}

/// Pairwise ascending filename order.
pub open spec fn sorted_by_name(v: Seq<(Seq<char>, SuitesV)>) -> bool {
    forall|i: int, j: int| 0 <= i < j < v.len() ==> lex_le(#[trigger] v[i].0, #[trigger] v[j].0)
}

/// Reorders the pairs into ascending filename order, keeping exactly the
/// same pairs.
fn sort_by_name(v: Vec<(String, TestSuites)>) -> (r: Vec<(String, TestSuites)>)
    ensures
        r.deep_view().to_multiset() == v.deep_view().to_multiset(),
        r.deep_view().len() == v.deep_view().len(),
        sorted_by_name(r.deep_view()),
{
    let ghost total = v.deep_view().to_multiset();
    let mut rem = v;
    let mut out: Vec<(String, TestSuites)> = Vec::new();
    proof {
        assert(out.deep_view() =~~= Seq::<(Seq<char>, SuitesV)>::empty());
        assert(out.deep_view().to_multiset().add(rem.deep_view().to_multiset()) =~= total);
    }
    while rem.len() > 0
        invariant
            out.deep_view().to_multiset().add(rem.deep_view().to_multiset()) == total,
            out.deep_view().len() + rem.deep_view().len() == total.len(),
            rem.deep_view().len() == rem@.len(),
            out.deep_view().len() == out@.len(),
            sorted_by_name(out.deep_view()),
            forall|i: int, j: int|
                0 <= i < out.deep_view().len() && 0 <= j < rem.deep_view().len() ==> lex_le(
                    #[trigger] out.deep_view()[i].0,
                    #[trigger] rem.deep_view()[j].0,
                ),
        decreases rem@.len(),
    {
        let ghost rv = rem.deep_view();
        proof {
            lemma_lex_total(rv[0].0, rv[0].0);
        }
        let mut mi: usize = 0;
        let mut t: usize = 1;
        while t < rem.len()
            invariant
                0 <= mi < rem@.len(),
                mi < t <= rem@.len(),
                rv == rem.deep_view(),
                rv.len() == rem@.len(),
                forall|u: int| 0 <= u < t ==> lex_le(rv[mi as int].0, #[trigger] rv[u].0),
            decreases rem@.len() - t,
        {
            proof {
                assert(rv[t as int].0 == rem@[t as int].0@);
                assert(rv[mi as int].0 == rem@[mi as int].0@);
            }
            if lex_le_str(rem[t].0.as_str(), rem[mi].0.as_str()) {
                proof {
                    assert forall|u: int| 0 <= u < t + 1 implies lex_le(
                        rv[t as int].0,
                        #[trigger] rv[u].0,
                    ) by {
                        if u < t {
                            lemma_lex_trans(rv[t as int].0, rv[mi as int].0, rv[u].0);
                        } else {
                            lemma_lex_total(rv[t as int].0, rv[t as int].0);
                        }
                    }
                }
                mi = t;
            } else {
                proof {
                    lemma_lex_total(rv[mi as int].0, rv[t as int].0);
                }
            }
            t = t + 1;
        }
        let ghost old_out = out.deep_view();
        let ghost xv = rv[mi as int];
        let x = rem.remove(mi);
        proof {
            assert(x.deep_view() == xv);
            assert(rem.deep_view() =~~= rv.remove(mi as int));
        }
        out.push(x);
        proof {
            assert(out.deep_view() =~~= old_out.push(xv));
            assert(rv.remove(mi as int).to_multiset() =~= rv.to_multiset().remove(xv));
            assert(rv.to_multiset().count(xv) >= 1) by {
                rv.to_multiset_ensures();
            }
            assert(old_out.push(xv).to_multiset().add(rv.to_multiset().remove(xv)) =~= old_out
                .to_multiset().add(rv.to_multiset()));
            assert forall|i: int, j: int|
                0 <= i < out.deep_view().len() && 0 <= j < rem.deep_view().len() implies lex_le(
                #[trigger] out.deep_view()[i].0,
                #[trigger] rem.deep_view()[j].0,
            ) by {
                let rj = if j < mi {
                    j
                } else {
                    j + 1
                };
                assert(rem.deep_view()[j] == rv[rj]);
                if i < old_out.len() {
                    assert(lex_le(out.deep_view()[i].0, rv[rj].0));
                } else {
                    assert(out.deep_view()[i] == xv);
                    assert(lex_le(xv.0, rv[rj].0));
                }
            }
        }
    }
    proof {
        assert(rem.deep_view() =~~= Seq::<(Seq<char>, SuitesV)>::empty());
        assert(out.deep_view().to_multiset().add(rem.deep_view().to_multiset()) =~= out
            .deep_view().to_multiset());
    }
    out
}

/// Parses a batch of named documents and returns the recognized ones in
/// ascending filename order. A recognized document that does not parse fails
/// the batch with its filename attached; a batch with no recognized name at
/// all is an empty collection, reported as such.
pub fn collect_reports(entries: Vec<(String, String)>) -> (r: Result<
    Vec<(String, TestSuites)>,
    ParseError,
>)
    ensures
        match r {
            Ok(v) => {
                &&& spec_collect(entries.deep_view()) is Some
                &&& count_recognized(entries.deep_view()) > 0
                &&& v.deep_view().to_multiset() == spec_collect(
                    entries.deep_view(),
                )->Some_0.to_multiset()
                &&& v.deep_view().len() == count_recognized(entries.deep_view())
                &&& sorted_by_name(v.deep_view())
            },
            Err(e) => match e {
                ParseError::EmptyCollection => spec_collect(entries.deep_view()) is Some
                    && count_recognized(entries.deep_view()) == 0,
                ParseError::MalformedXml { .. } => spec_collect(entries.deep_view()) is None,
                ParseError::IoError { .. } => false,
            },
        },
{
    let ghost ev = entries.deep_view();
    let mut out: Vec<(String, TestSuites)> = Vec::new();
    let mut k: usize = 0;
    proof {
        assert(ev.skip(0) =~= ev);
        assert(out.deep_view() =~~= Seq::<(Seq<char>, SuitesV)>::empty());
        match spec_collect(ev) {
            Some(rest) => {
                assert(Seq::<(Seq<char>, SuitesV)>::empty() + rest =~~= rest);
            },
            None => {},
        }
    }
    while k < entries.len()
        invariant
            0 <= k <= entries@.len(),
            ev == entries.deep_view(),
            ev.len() == entries@.len(),
            spec_collect(ev) == match spec_collect(ev.skip(k as int)) {
                Some(rest) => Some(out.deep_view() + rest),
                None => None::<Seq<(Seq<char>, SuitesV)>>,
            },
            out.deep_view().len() + count_recognized(ev.skip(k as int)) == count_recognized(ev),
        decreases entries@.len() - k,
    {
        proof {
            assert(ev.skip(k as int)[0] == ev[k as int]);
            assert(ev.skip(k as int).skip(1) =~= ev.skip(k + 1));
            assert(ev[k as int] == (entries@[k as int].0@, entries@[k as int].1@));
        }
        let ghost old_out = out.deep_view();
        if recognized_name(entries[k].0.as_str()) {
            match parse_str(entries[k].1.as_str()) {
                Ok(rep) => {
                    let name = entries[k].0.clone();
                    let ghost repv = rep.deep_view();
                    out.push((name, rep));
                    proof {
                        assert(out.deep_view() =~~= old_out + seq![(ev[k as int].0, repv)]);
                        match spec_collect(ev.skip(k + 1)) {
                            Some(rest) => {
                                assert((old_out + seq![(ev[k as int].0, repv)]) + rest =~~= old_out
                                    + (seq![(ev[k as int].0, repv)] + rest));
                            },
                            None => {},
                        }
                    }
                },
                Err(e) => {
                    let name = entries[k].0.clone();
                    let detail = match e {
                        ParseError::MalformedXml { detail, .. } => detail,
                        _ => String::new(),
                    };
                    return Err(ParseError::MalformedXml { detail, path: Some(name) });
                },
            }
        }
        k = k + 1;
    }
    proof {
        assert(ev.skip(ev.len() as int) =~= Seq::<(Seq<char>, Seq<char>)>::empty());
        assert(out.deep_view() + Seq::<(Seq<char>, SuitesV)>::empty() =~~= out.deep_view());
        lemma_collect_len(ev);
    }
    if out.len() == 0 {
        return Err(ParseError::EmptyCollection);
    }
    let sorted = sort_by_name(out);
    Ok(sorted)
}

} // verus!
