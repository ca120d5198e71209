//! A small document parser for the report grammar: elements with attributes,
//! character data with the five named references, CDATA sections, comments
//! and processing instructions. The grammar is defined by the `spec_parse_*`
//! functions; the executable parser returns exactly what they describe.

use vstd::prelude::*;
use crate::text::is_xml_ws;
use crate::text::is_name_char;
use crate::text::spec_unescape;
use crate::text::unescape_range;
use crate::text::ws_char;
use crate::text::name_char;
use crate::text::copy_range;
use crate::text::concat_chars;
use crate::text::eq_range_chars;

verus! {

broadcast use {vstd::std_specs::vec::group_vec_axioms, crate::text::lemma_chars_deep_view};

/// One parsed element: its name, its attributes in document order, the
/// concatenation of its decoded character-data runs (absent when there was
/// none), and its child elements in document order.
pub struct XmlElem {
    pub name: Vec<char>,
    pub attrs: Vec<(Vec<char>, Vec<char>)>,
    pub text: Option<Vec<char>>,
    pub children: Vec<XmlElem>,
}

/// Mathematical mirror of `XmlElem`.
pub ghost struct XElemV {
    pub name: Seq<char>,
    pub attrs: Seq<(Seq<char>, Seq<char>)>,
    pub text: Option<Seq<char>>,
    pub children: Seq<XElemV>,
}

/// The mathematical value of a parsed element, children included.
pub open spec fn elem_view(e: XmlElem) -> XElemV
    decreases e via elem_view_dec
{
    XElemV {
        name: e.name.deep_view(),
        attrs: e.attrs.deep_view(),
        text: e.text.deep_view(),
        children: elems_view(e.children@),
    }
}

#[via_fn]
proof fn elem_view_dec(e: XmlElem) {
    assert(decreases_to!(e => e.children));
    vstd::std_specs::vec::axiom_vec_decreases_to_view(e.children);
}

/// The mathematical values of a run of parsed elements, in order.
pub open spec fn elems_view(s: Seq<XmlElem>) -> Seq<XElemV>
    decreases s via elems_view_dec
{
    if s.len() == 0 {
        Seq::<XElemV>::empty()
    } else {
        seq![elem_view(s[0])] + elems_view(s.skip(1))
    }
}

#[via_fn]
proof fn elems_view_dec(s: Seq<XmlElem>) {
    if s.len() > 0 {
        vstd::seq::axiom_seq_index_decreases(s, 0);
        vstd::seq::axiom_seq_subrange_decreases(s, 1, s.len() as int);
        assert(s.skip(1) == s.subrange(1, s.len() as int));
    }
}

impl DeepView for XmlElem {
    type V = XElemV;

    open spec fn deep_view(&self) -> XElemV {
        elem_view(*self)
    }
}

/// The first position at or after `i` that does not hold whitespace.
pub open spec fn spec_skip_ws(s: Seq<char>, i: int) -> int
    decreases s.len() - i,
{
    if 0 <= i && i < s.len() && is_xml_ws(s[i]) {
        spec_skip_ws(s, i + 1)
    } else {
        i
    }
}

/// The first position at or after `i` that does not hold a name character.
pub open spec fn spec_name_end(s: Seq<char>, i: int) -> int
    decreases s.len() - i,
{
    if 0 <= i && i < s.len() && is_name_char(s[i]) {
        spec_name_end(s, i + 1)
    } else {
        i
    }
}

/// The first position at or after `i` holding `t`, or the length if none.
pub open spec fn spec_scan_char(s: Seq<char>, i: int, t: char) -> int
    decreases s.len() - i,
{
    if 0 <= i && i < s.len() {
        if s[i] == t {
            i
        } else {
            spec_scan_char(s, i + 1, t)
        }
    } else {
        s.len() as int
    }
}

/// The position right after the closing `?>` of a processing instruction.
pub open spec fn spec_find_pi_end(s: Seq<char>, i: int) -> Option<int>
    decreases s.len() - i,
{
    if 0 <= i && i + 2 <= s.len() {
        if s[i] == '?' && s[i + 1] == '>' {
            Some(i + 2)
        } else {
            spec_find_pi_end(s, i + 1)
        }
    } else {
        None
    }
}

/// The position right after the closing `-->` of a comment.
pub open spec fn spec_find_comment_end(s: Seq<char>, i: int) -> Option<int>
    decreases s.len() - i,
{
    if 0 <= i && i + 3 <= s.len() {
        if s[i] == '-' && s[i + 1] == '-' && s[i + 2] == '>' {
            Some(i + 3)
        } else {
            spec_find_comment_end(s, i + 1)
        }
    } else {
        None
    }
}

/// The position of the closing `]]>` of a CDATA section.
pub open spec fn spec_find_cdata_close(s: Seq<char>, i: int) -> Option<int>
    decreases s.len() - i,
{
    if 0 <= i && i + 3 <= s.len() {
        if s[i] == ']' && s[i + 1] == ']' && s[i + 2] == '>' {
            Some(i)
        } else {
            spec_find_cdata_close(s, i + 1)
        }
    } else {
        None
    }
}

/// The attribute list from `i` on: `name = "value"` groups separated by
/// whitespace, values in either quote kind with references decoded, ending
/// before the first character that starts no name.
pub open spec fn spec_parse_attrs(s: Seq<char>, i: int) -> Option<
    (Seq<(Seq<char>, Seq<char>)>, int),
>
    decreases s.len() - i,
{
    let j = spec_skip_ws(s, i);
    if j < s.len() && is_name_char(s[j]) {
        let ne = spec_name_end(s, j);
        let k = spec_skip_ws(s, ne);
        if k < s.len() && s[k] == '=' {
            let m = spec_skip_ws(s, k + 1);
            if m < s.len() && (s[m] == '"' || s[m] == '\'') {
                let e = spec_scan_char(s, m + 1, s[m]);
                if e < s.len() {
                    match spec_unescape(s.subrange(m + 1, e)) {
                        Some(val) => if i < e + 1 && e + 1 <= s.len() {
                            match spec_parse_attrs(s, e + 1) {
                                Some(rest) => Some(
                                    (seq![(s.subrange(j, ne), val)] + rest.0, rest.1),
                                ),
                                None => None,
                            }
                        } else {
                            None
                        },
                        None => None,
                    }
                } else {
                    None
                }
            } else {
                None
            }
        } else {
            None
        }
    } else {
        Some((Seq::empty(), j))
    }
}

/// An opening tag at `i`: `<`, a non-empty name, attributes, then `>` or
/// `/>`. Yields the name, the attributes, whether the element is
/// self-closing, and the position after the tag.
pub open spec fn spec_parse_open_tag(s: Seq<char>, i: int) -> Option<
    (Seq<char>, Seq<(Seq<char>, Seq<char>)>, bool, int),
> {
    if 0 <= i && i < s.len() && s[i] == '<' {
        let ne = spec_name_end(s, i + 1);
        if ne > i + 1 {
            let name = s.subrange(i + 1, ne);
            match spec_parse_attrs(s, ne) {
                Some(ar) => {
                    let j = ar.1;
                    if j < s.len() && s[j] == '>' {
                        Some((name, ar.0, false, j + 1))
                    } else if j + 1 < s.len() && s[j] == '/' && s[j + 1] == '>' {
                        Some((name, ar.0, true, j + 2))
                    } else {
                        None
                    }
                },
                None => None,
            }
        } else {
            None
        }
    } else {
        None
    }
}

/// A closing tag at `i` for the given name: `</`, the name, optional
/// whitespace, `>`. Yields the position after the tag.
pub open spec fn spec_parse_close(s: Seq<char>, i: int, name: Seq<char>) -> Option<int> {
    if 0 <= i && i + 2 <= s.len() && s[i] == '<' && s[i + 1] == '/' {
        let ne = spec_name_end(s, i + 2);
        if s.subrange(i + 2, ne) == name {
            let j = spec_skip_ws(s, ne);
            if j < s.len() && s[j] == '>' {
                Some(j + 1)
            } else {
                None
            }
        } else {
            None
        }
    } else {
        None
    }
}

/// Joins a new leading text segment with the text gathered after it.
pub open spec fn prepend_text(seg: Seq<char>, t: Option<Seq<char>>) -> Option<Seq<char>> {
    match t {
        Some(x) => Some(seg + x),
        None => Some(seg),
    }
}

/// The content of an element from `i` up to (not including) its closing tag:
/// child elements and decoded character data, with comments, CDATA brackets
/// and processing instructions handled. Yields the children, the gathered
/// text, and the position of the closing tag.
pub open spec fn spec_parse_content(s: Seq<char>, i: int) -> Option<
    (Seq<XElemV>, Option<Seq<char>>, int),
>
    decreases s.len() - i, 1int,
{
    if !(0 <= i && i < s.len()) {
        None
    } else if s[i] == '<' {
        if i + 1 < s.len() && s[i + 1] == '/' {
            Some((Seq::empty(), None, i))
        } else if i + 4 <= s.len() && s[i + 1] == '!' && s[i + 2] == '-' && s[i + 3] == '-' {
            match spec_find_comment_end(s, i + 4) {
                Some(e) => if i < e && e <= s.len() {
                    spec_parse_content(s, e)
                } else {
                    None
                },
                None => None,
            }
        } else if i + 9 <= s.len() && s[i + 1] == '!' && s[i + 2] == '[' && s[i + 3] == 'C' && s[i
            + 4] == 'D' && s[i + 5] == 'A' && s[i + 6] == 'T' && s[i + 7] == 'A' && s[i + 8]
            == '[' {
            match spec_find_cdata_close(s, i + 9) {
                Some(c) => {
                    let seg = s.subrange(i + 9, c);
                    if i < c + 3 && c + 3 <= s.len() {
                        match spec_parse_content(s, c + 3) {
                            Some(rest) => Some((rest.0, prepend_text(seg, rest.1), rest.2)),
                            None => None,
                        }
                    } else {
                        None
                    }
                },
                None => None,
            }
        } else if i + 2 <= s.len() && s[i + 1] == '?' {
            match spec_find_pi_end(s, i + 2) {
                Some(e) => if i < e && e <= s.len() {
                    spec_parse_content(s, e)
                } else {
                    None
                },
                None => None,
            }
        } else {
            match spec_parse_element(s, i) {
                Some(el) => if i < el.1 && el.1 <= s.len() {
                    match spec_parse_content(s, el.1) {
                        Some(rest) => Some((seq![el.0] + rest.0, rest.1, rest.2)),
                        None => None,
                    }
                } else {
                    None
                },
                None => None,
            }
        }
    } else {
        let j = spec_scan_char(s, i, '<');
        if j >= s.len() {
            None
        } else {
            match spec_unescape(s.subrange(i, j)) {
                Some(dec) => if i < j {
                    match spec_parse_content(s, j) {
                        Some(rest) => Some((rest.0, prepend_text(dec, rest.1), rest.2)),
                        None => None,
                    }
                } else {
                    None
                },
                None => None,
            }
        }
    }
}

/// A whole element at `i`: its opening tag and, unless self-closing, its
/// content and matching closing tag. Yields the element and the position
/// after it.
pub open spec fn spec_parse_element(s: Seq<char>, i: int) -> Option<(XElemV, int)>
    decreases s.len() - i, 0int,
{
    match spec_parse_open_tag(s, i) {
        Some(ot) => {
            if ot.2 {
                Some(
                    (
                        XElemV { name: ot.0, attrs: ot.1, text: None, children: Seq::empty() },
                        ot.3,
                    ),
                )
            } else if i < ot.3 && ot.3 <= s.len() {
                match spec_parse_content(s, ot.3) {
                    Some(ct) => {
                        match spec_parse_close(s, ct.2, ot.0) {
                            Some(k) => Some(
                                (
                                    XElemV {
                                        name: ot.0,
                                        attrs: ot.1,
                                        text: ct.1,
                                        children: ct.0,
                                    },
                                    k,
                                ),
                            ),
                            None => None,
                        }
                    },
                    None => None,
                }
            } else {
                None
            }
        },
        None => None,
    }
}

/// Skips what may stand around the root element: whitespace, declarations
/// and processing instructions, comments, and a document-type declaration.
pub open spec fn spec_skip_misc(s: Seq<char>, i: int) -> Option<int>
    decreases s.len() - i,
{
    let j = spec_skip_ws(s, i);
    if j + 4 <= s.len() && s[j] == '<' && s[j + 1] == '!' && s[j + 2] == '-' && s[j + 3] == '-' {
        match spec_find_comment_end(s, j + 4) {
            Some(e) => if i < e && e <= s.len() {
                spec_skip_misc(s, e)
            } else {
                None
            },
            None => None,
        }
    } else if j + 2 <= s.len() && s[j] == '<' && s[j + 1] == '?' {
        match spec_find_pi_end(s, j + 2) {
            Some(e) => if i < e && e <= s.len() {
                spec_skip_misc(s, e)
            } else {
                None
            },
            None => None,
        }
    } else if j + 2 <= s.len() && s[j] == '<' && s[j + 1] == '!' {
        let e = spec_scan_char(s, j + 2, '>');
        if e < s.len() && i < e + 1 {
            spec_skip_misc(s, e + 1)
        } else {
            None
        }
    } else {
        Some(j)
    }
}

/// A whole document: optional leading declarations, one root element, and
/// only whitespace, comments or processing instructions after it.
pub open spec fn spec_parse_document(s: Seq<char>) -> Option<XElemV> {
    match spec_skip_misc(s, 0) {
        Some(i) => match spec_parse_element(s, i) {
            Some(root) => match spec_skip_misc(s, root.1) {
                Some(k) => if k == s.len() {
                    Some(root.0)
                } else {
                    None
                },
                None => None,
            },
            None => None,
        },
        None => None,
    }
}

/// Lengths and members of a run of element values, elementwise.
pub proof fn lemma_elems_view(s: Seq<XmlElem>)
    ensures
        elems_view(s).len() == s.len(),
        forall|k: int| 0 <= k < s.len() ==> elems_view(s)[k] == elem_view(s[k]),
    decreases s.len(),
{
    if s.len() > 0 {
        lemma_elems_view(s.skip(1));
    }
}

proof fn lemma_elems_view_insert_front(pre: Seq<XmlElem>, post: Seq<XmlElem>, e: XmlElem)
    requires
        post == pre.insert(0, e),
    ensures
        elems_view(post) == seq![elem_view(e)] + elems_view(pre),
{
    assert(post[0] == e);
    assert(post.skip(1) =~= pre);
}

/// The first position at or after `i` that holds no whitespace.
pub fn skip_ws(cs: &Vec<char>, i: usize) -> (r: usize)
    requires
        i <= cs@.len(),
    ensures
        r as int == spec_skip_ws(cs@, i as int),
        i <= r <= cs@.len(),
{
    let mut j: usize = i;
    while j < cs.len() && ws_char(cs[j])
        invariant
            i <= j <= cs@.len(),
            spec_skip_ws(cs@, i as int) == spec_skip_ws(cs@, j as int),
        decreases cs@.len() - j,
    {
        j = j + 1;
    }
    j
}

/// The first position at or after `i` that holds no name character.
pub fn name_end(cs: &Vec<char>, i: usize) -> (r: usize)
    requires
        i <= cs@.len(),
    ensures
        r as int == spec_name_end(cs@, i as int),
        i <= r <= cs@.len(),
{
    let mut j: usize = i;
    while j < cs.len() && name_char(cs[j])
        invariant
            i <= j <= cs@.len(),
            spec_name_end(cs@, i as int) == spec_name_end(cs@, j as int),
        decreases cs@.len() - j,
    {
        j = j + 1;
    }
    j
}

/// The first position at or after `i` holding `t`, or the length.
pub fn scan_char(cs: &Vec<char>, i: usize, t: char) -> (r: usize)
    requires
        i <= cs@.len(),
    ensures
        r as int == spec_scan_char(cs@, i as int, t),
        i <= r <= cs@.len(),
        r < cs@.len() ==> cs@[r as int] == t,
        forall|k: int| i <= k < r ==> cs@[k] != t,
{
    let mut j: usize = i;
    while j < cs.len() && cs[j] != t
        invariant
            i <= j <= cs@.len(),
            spec_scan_char(cs@, i as int, t) == spec_scan_char(cs@, j as int, t),
            forall|k: int| i <= k < j ==> cs@[k] != t,
        decreases cs@.len() - j,
    {
        j = j + 1;
    }
    j
}

/// Finds the position after the `?>` that ends a processing instruction.
pub fn find_pi_end(cs: &Vec<char>, i: usize) -> (r: Option<usize>)
    requires
        i <= cs@.len(),
    ensures
        match r {
            Some(e) => spec_find_pi_end(cs@, i as int) == Some(e as int) && i < e <= cs@.len(),
            None => spec_find_pi_end(cs@, i as int) is None,
        },
{
    let mut j: usize = i;
    while j < cs.len() && j + 1 < cs.len()
        invariant
            i <= j <= cs@.len(),
            spec_find_pi_end(cs@, i as int) == spec_find_pi_end(cs@, j as int),
        decreases cs@.len() - j,
    {
        if cs[j] == '?' && cs[j + 1] == '>' {
            return Some(j + 2);
        }
        j = j + 1;
    }
    None
}

/// Finds the position after the `-->` that ends a comment.
pub fn find_comment_end(cs: &Vec<char>, i: usize) -> (r: Option<usize>)
    requires
        i <= cs@.len(),
    ensures
        match r {
            Some(e) => spec_find_comment_end(cs@, i as int) == Some(e as int) && i < e
                <= cs@.len(),
            None => spec_find_comment_end(cs@, i as int) is None,
        },
{
    if cs.len() < 3 {
        return None;
    }
    let mut j: usize = i;
    while j <= cs.len() - 3
        invariant
            i <= j,
            j <= cs@.len(),
            cs@.len() >= 3,
            spec_find_comment_end(cs@, i as int) == spec_find_comment_end(cs@, j as int),
        decreases cs@.len() - j,
    {
        if cs[j] == '-' && cs[j + 1] == '-' && cs[j + 2] == '>' {
            return Some(j + 3);
        }
        j = j + 1;
    }
    None
}

/// Finds the start of the `]]>` that ends a CDATA section.
pub fn find_cdata_close(cs: &Vec<char>, i: usize) -> (r: Option<usize>)
    requires
        i <= cs@.len(),
    ensures
        match r {
            Some(c) => spec_find_cdata_close(cs@, i as int) == Some(c as int) && i <= c && c + 3
                <= cs@.len(),
            None => spec_find_cdata_close(cs@, i as int) is None,
        },
{
    if cs.len() < 3 {
        return None;
    }
    let mut j: usize = i;
    while j <= cs.len() - 3
        invariant
            i <= j,
            j <= cs@.len(),
            cs@.len() >= 3,
            spec_find_cdata_close(cs@, i as int) == spec_find_cdata_close(cs@, j as int),
        decreases cs@.len() - j,
    {
        if cs[j] == ']' && cs[j + 1] == ']' && cs[j + 2] == '>' {
            return Some(j);
        }
        j = j + 1;
    }
    None
}

/// Parses an attribute list as `spec_parse_attrs` says.
pub fn parse_attrs(cs: &Vec<char>, i: usize) -> (r: Option<(Vec<(Vec<char>, Vec<char>)>, usize)>)
    requires
        i <= cs@.len(),
    ensures
        match r {
            Some(p) => spec_parse_attrs(cs@, i as int) == Some((p.0.deep_view(), p.1 as int))
                && i <= p.1 <= cs@.len(),
            None => spec_parse_attrs(cs@, i as int) is None,
        },
    decreases cs@.len() - i,
{
    let j = skip_ws(cs, i);
    if j < cs.len() && name_char(cs[j]) {
        let ne = name_end(cs, j);
        let k = skip_ws(cs, ne);
        if k < cs.len() && cs[k] == '=' {
            let m = skip_ws(cs, k + 1);
            if m < cs.len() && (cs[m] == '"' || cs[m] == '\'') {
                let e = scan_char(cs, m + 1, cs[m]);
                if e < cs.len() {
                    match unescape_range(cs, m + 1, e) {
                        Some(val) => {
                            let ghost valv = val@;
                            match parse_attrs(cs, e + 1) {
                                Some((mut av, pos)) => {
                                    let ghost old_av = av.deep_view();
                                    let name = copy_range(cs, j, ne);
                                    av.insert(0, (name, val));
                                    proof {
                                        assert(av.deep_view() =~~= seq![
                                            (cs@.subrange(j as int, ne as int), valv),
                                        ] + old_av);
                                    }
                                    Some((av, pos))
                                },
                                None => None,
                            }
                        },
                        None => None,
                    }
                } else {
                    None
                }
            } else {
                None
            }
        } else {
            None
        }
    } else {
        Some((Vec::new(), j))
    }
}

/// Parses an opening tag as `spec_parse_open_tag` says.
pub fn parse_open_tag(cs: &Vec<char>, i: usize) -> (r: Option<
    (Vec<char>, Vec<(Vec<char>, Vec<char>)>, bool, usize),
>)
    requires
        i <= cs@.len(),
    ensures
        match r {
            Some(ot) => spec_parse_open_tag(cs@, i as int) == Some(
                (ot.0.deep_view(), ot.1.deep_view(), ot.2, ot.3 as int),
            ) && i < ot.3 <= cs@.len(),
            None => spec_parse_open_tag(cs@, i as int) is None,
        },
{
    if i < cs.len() && cs[i] == '<' {
        let ne = name_end(cs, i + 1);
        if ne > i + 1 {
            match parse_attrs(cs, ne) {
                Some((attrs, j)) => {
                    if j < cs.len() && cs[j] == '>' {
                        let name = copy_range(cs, i + 1, ne);
                        Some((name, attrs, false, j + 1))
                    } else if j < cs.len() && cs[j] == '/' && j + 1 < cs.len() && cs[j + 1]
                        == '>' {
                        let name = copy_range(cs, i + 1, ne);
                        Some((name, attrs, true, j + 2))
                    } else {
                        None
                    }
                },
                None => None,
            }
        } else {
            None
        }
    } else {
        None
    }
}

/// Parses a closing tag for `name` as `spec_parse_close` says.
pub fn parse_close(cs: &Vec<char>, i: usize, name: &Vec<char>) -> (r: Option<usize>)
    requires
        i <= cs@.len(),
    ensures
        match r {
            Some(k) => spec_parse_close(cs@, i as int, name.deep_view()) == Some(k as int) && i
                < k <= cs@.len(),
            None => spec_parse_close(cs@, i as int, name.deep_view()) is None,
        },
{
    if cs.len() - i >= 2 && cs[i] == '<' && cs[i + 1] == '/' {
        let ne = name_end(cs, i + 2);
        if eq_range_chars(cs, i + 2, ne, name) {
            let j = skip_ws(cs, ne);
            if j < cs.len() && cs[j] == '>' {
                Some(j + 1)
            } else {
                None
            }
        } else {
            None
        }
    } else {
        None
    }
}

/// Parses element content as `spec_parse_content` says.
pub fn parse_content(cs: &Vec<char>, i: usize) -> (r: Option<
    (Vec<XmlElem>, Option<Vec<char>>, usize),
>)
    requires
        i <= cs@.len(),
    ensures
        match r {
            Some(t) => spec_parse_content(cs@, i as int) == Some(
                (elems_view(t.0@), t.1.deep_view(), t.2 as int),
            ) && i <= t.2 <= cs@.len(),
            None => spec_parse_content(cs@, i as int) is None,
        },
    decreases cs@.len() - i, 1int,
{
    if i >= cs.len() {
        return None;
    }
    if cs[i] == '<' {
        if i + 1 < cs.len() && cs[i + 1] == '/' {
            let out: Vec<XmlElem> = Vec::new();
            proof {
                lemma_elems_view(out@);
                assert(elems_view(out@) =~= Seq::<XElemV>::empty());
            }
            Some((out, None, i))
        } else if cs.len() - i >= 4 && cs[i + 1] == '!' && cs[i + 2] == '-' && cs[i + 3] == '-' {
            match find_comment_end(cs, i + 4) {
                Some(e) => parse_content(cs, e),
                None => None,
            }
        } else if cs.len() - i >= 9 && cs[i + 1] == '!' && cs[i + 2] == '[' && cs[i + 3] == 'C'
            && cs[i + 4] == 'D' && cs[i + 5] == 'A' && cs[i + 6] == 'T' && cs[i + 7] == 'A' && cs[i
            + 8] == '[' {
            match find_cdata_close(cs, i + 9) {
                Some(c) => {
                    let seg = copy_range(cs, i + 9, c);
                    match parse_content(cs, c + 3) {
                        Some((ch, txt, n)) => {
                            let joined = match txt {
                                Some(tv) => {
                                    let ghost tvv = tv@;
                                    let w = concat_chars(seg, &tv);
                                    w
                                },
                                None => seg,
                            };
                            proof {
                                assert(Some(joined@) == prepend_text(
                                    cs@.subrange(i + 9, c as int),
                                    txt.deep_view(),
                                ));
                            }
                            Some((ch, Some(joined), n))
                        },
                        None => None,
                    }
                },
                None => None,
            }
        } else if cs.len() - i >= 2 && cs[i + 1] == '?' {
            match find_pi_end(cs, i + 2) {
                Some(e) => parse_content(cs, e),
                None => None,
            }
        } else {
            match parse_element(cs, i) {
                Some((el, j)) => {
                    match parse_content(cs, j) {
                        Some((mut ch, txt, n)) => {
                            let ghost pre = ch@;
                            ch.insert(0, el);
                            proof {
                                lemma_elems_view_insert_front(pre, ch@, el);
                            }
                            Some((ch, txt, n))
                        },
                        None => None,
                    }
                },
                None => None,
            }
        }
    } else {
        let j = scan_char(cs, i, '<');
        if j >= cs.len() {
            return None;
        }
        match unescape_range(cs, i, j) {
            Some(dec) => {
                match parse_content(cs, j) {
                    Some((ch, txt, n)) => {
                        let joined = match txt {
                            Some(tv) => concat_chars(dec, &tv),
                            None => dec,
                        };
                        Some((ch, Some(joined), n))
                    },
                    None => None,
                }
            },
            None => None,
        }
    }
}

/// Parses one element as `spec_parse_element` says.
pub fn parse_element(cs: &Vec<char>, i: usize) -> (r: Option<(XmlElem, usize)>)
    requires
        i <= cs@.len(),
    ensures
        match r {
            Some(p) => spec_parse_element(cs@, i as int) == Some((elem_view(p.0), p.1 as int))
                && i < p.1 <= cs@.len(),
            None => spec_parse_element(cs@, i as int) is None,
        },
    decreases cs@.len() - i, 0int,
{
    match parse_open_tag(cs, i) {
        Some((name, attrs, sc, next)) => {
            if sc {
                let el = XmlElem { name, attrs, text: None, children: Vec::new() };
                proof {
                    assert(elems_view(el.children@) =~= Seq::<XElemV>::empty());
                }
                Some((el, next))
            } else {
                match parse_content(cs, next) {
                    Some((children, text, j)) => {
                        match parse_close(cs, j, &name) {
                            Some(k) => {
                                let el = XmlElem { name, attrs, text, children };
                                Some((el, k))
                            },
                            None => None,
                        }
                    },
                    None => None,
                }
            }
        },
        None => None,
    }
}

/// Skips surrounding declarations as `spec_skip_misc` says.
pub fn skip_misc(cs: &Vec<char>, i: usize) -> (r: Option<usize>)
    requires
        i <= cs@.len(),
    ensures
        match r {
            Some(j) => spec_skip_misc(cs@, i as int) == Some(j as int) && i <= j <= cs@.len(),
            None => spec_skip_misc(cs@, i as int) is None,
        },
    decreases cs@.len() - i,
{
    let j = skip_ws(cs, i);
    if cs.len() - j >= 4 && cs[j] == '<' && cs[j + 1] == '!' && cs[j + 2] == '-' && cs[j + 3]
        == '-' {
        match find_comment_end(cs, j + 4) {
            Some(e) => skip_misc(cs, e),
            None => None,
        }
    } else if cs.len() - j >= 2 && cs[j] == '<' && cs[j + 1] == '?' {
        match find_pi_end(cs, j + 2) {
            Some(e) => skip_misc(cs, e),
            None => None,
        }
    } else if cs.len() - j >= 2 && cs[j] == '<' && cs[j + 1] == '!' {
        let e = scan_char(cs, j + 2, '>');
        if e < cs.len() {
            skip_misc(cs, e + 1)
        } else {
            None
        }
    } else {
        Some(j)
    }
}

/// Parses a whole document as `spec_parse_document` says.
pub fn parse_document(cs: &Vec<char>) -> (r: Option<XmlElem>)
    ensures
        match r {
            Some(root) => spec_parse_document(cs@) == Some(elem_view(root)),
            None => spec_parse_document(cs@) is None,
        },
{
    match skip_misc(cs, 0) {
        Some(i) => match parse_element(cs, i) {
            Some((root, j)) => match skip_misc(cs, j) {
                Some(k) => if k == cs.len() {
                    Some(root)
                } else {
                    None
                },
                None => None,
            },
            None => None,
        },
        None => None,
    }
}

} // verus!
