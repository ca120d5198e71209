//! Character-level helpers: whitespace and name classes, entity decoding for
//! text and attribute values, decimal counters, and conversions between
//! strings and character vectors.

use vstd::prelude::*;

verus! {

/// Whitespace accepted between tokens of a document.
pub open spec fn is_xml_ws(c: char) -> bool {
    c == ' ' || c == '\t' || c == '\r' || c == '\n'
}

/// Characters accepted in element and attribute names.
pub open spec fn is_name_char(c: char) -> bool {
    ('a' <= c && c <= 'z') || ('A' <= c && c <= 'Z') || ('0' <= c && c <= '9') || c == '-'
        || c == '_' || c == ':' || c == '.'
}

/// Decimal digits.
pub open spec fn is_digit(c: char) -> bool {
    '0' <= c && c <= '9'
}

/// Prepends a character to a decoded tail, propagating failure.
pub open spec fn prepend_char(c: char, r: Option<Seq<char>>) -> Option<Seq<char>> {
    match r {
        Some(t) => Some(seq![c] + t),
        None => None,
    }
}

/// Decodes one run of character data: characters are taken verbatim except
/// for the five named references `&lt;` `&gt;` `&amp;` `&quot;` `&apos;`;
/// any other use of `&` makes the run malformed.
pub open spec fn spec_unescape(s: Seq<char>) -> Option<Seq<char>>
    decreases s.len(),
{
    if s.len() == 0 {
        Some(Seq::<char>::empty())
    } else if s[0] == '&' {
        if s.len() >= 4 && s[1] == 'l' && s[2] == 't' && s[3] == ';' {
            prepend_char('<', spec_unescape(s.skip(4)))
        } else if s.len() >= 4 && s[1] == 'g' && s[2] == 't' && s[3] == ';' {
            prepend_char('>', spec_unescape(s.skip(4)))
        } else if s.len() >= 5 && s[1] == 'a' && s[2] == 'm' && s[3] == 'p' && s[4] == ';' {
            prepend_char('&', spec_unescape(s.skip(5)))
        } else if s.len() >= 6 && s[1] == 'q' && s[2] == 'u' && s[3] == 'o' && s[4] == 't' && s[5]
            == ';' {
            prepend_char('"', spec_unescape(s.skip(6)))
        } else if s.len() >= 6 && s[1] == 'a' && s[2] == 'p' && s[3] == 'o' && s[4] == 's' && s[5]
            == ';' {
            prepend_char('\'', spec_unescape(s.skip(6)))
        } else {
            None
        }
    } else {
        prepend_char(s[0], spec_unescape(s.skip(1)))
    }
}

/// The escaped form of one character: the five characters with named
/// references become those references, every other character stands as is.
pub open spec fn escape_char(c: char) -> Seq<char> {
    if c == '<' {
        seq!['&', 'l', 't', ';']
    } else if c == '>' {
        seq!['&', 'g', 't', ';']
    } else if c == '&' {
        seq!['&', 'a', 'm', 'p', ';']
    } else if c == '"' {
        seq!['&', 'q', 'u', 'o', 't', ';']
    } else if c == '\'' {
        seq!['&', 'a', 'p', 'o', 's', ';']
    } else {
        seq![c]
    }
}

/// The escaped form of a run of character data.
pub open spec fn spec_escape(s: Seq<char>) -> Seq<char>
    decreases s.len(),
{
    if s.len() == 0 {
        Seq::<char>::empty()
    } else {
        escape_char(s[0]) + spec_escape(s.skip(1))
    }
}

/// Escaped text and a CDATA section carry the same characters: decoding the
/// escaped form of any run yields exactly the run itself, which is what a
/// CDATA section delivers verbatim.
pub proof fn lemma_unescape_escape(s: Seq<char>)
    ensures
        spec_unescape(spec_escape(s)) == Some(s),
    decreases s.len(),
{
    if s.len() == 0 {
        assert(spec_escape(s) =~= Seq::<char>::empty());
    } else {
        lemma_unescape_escape(s.skip(1));
        let c = s[0];
        let rest = spec_escape(s.skip(1));
        let t = spec_escape(s);
        assert(t == escape_char(c) + rest);
        if c == '<' {
            assert(t.skip(4) =~= rest);
            assert(seq!['<'] + s.skip(1) =~= s);
        } else if c == '>' {
            assert(t.skip(4) =~= rest);
            assert(seq!['>'] + s.skip(1) =~= s);
        } else if c == '&' {
            assert(t.skip(5) =~= rest);
            assert(seq!['&'] + s.skip(1) =~= s);
        } else if c == '"' {
            assert(t.skip(6) =~= rest);
            assert(seq!['"'] + s.skip(1) =~= s);
        } else if c == '\'' {
            assert(t.skip(6) =~= rest);
            assert(seq!['\''] + s.skip(1) =~= s);
        } else {
            assert(t.skip(1) =~= rest);
            assert(seq![c] + s.skip(1) =~= s);
        }
    }
}

/// Decodes the character-data run `cs[from..to]` as `spec_unescape` says.
pub fn unescape_range(cs: &Vec<char>, from: usize, to: usize) -> (r: Option<Vec<char>>)
    requires
        from <= to <= cs@.len(),
    ensures
        match r {
            Some(v) => spec_unescape(cs@.subrange(from as int, to as int)) == Some(v@),
            None => spec_unescape(cs@.subrange(from as int, to as int)) is None,
        },
    decreases to - from,
{
    let ghost s = cs@.subrange(from as int, to as int);
    if from == to {
        proof {
            assert(s =~= Seq::<char>::empty());
        }
        Some(Vec::new())
    } else if cs[from] == '&' {
        proof {
            assert(s.len() >= 1 && s[0] == '&');
        }
        if to - from >= 4 && cs[from + 1] == 'l' && cs[from + 2] == 't' && cs[from + 3] == ';' {
            proof {
                assert(s.skip(4) =~= cs@.subrange(from + 4, to as int));
            }
            match unescape_range(cs, from + 4, to) {
                Some(mut v) => {
                    v.insert(0, '<');
                    proof {
                        assert(spec_unescape(s) == Some(v@));
                    }
                    Some(v)
                },
                None => None,
            }
        } else if to - from >= 4 && cs[from + 1] == 'g' && cs[from + 2] == 't' && cs[from + 3]
            == ';' {
            proof {
                assert(s.skip(4) =~= cs@.subrange(from + 4, to as int));
            }
            match unescape_range(cs, from + 4, to) {
                Some(mut v) => {
                    v.insert(0, '>');
                    Some(v)
                },
                None => None,
            }
        } else if to - from >= 5 && cs[from + 1] == 'a' && cs[from + 2] == 'm' && cs[from + 3]
            == 'p' && cs[from + 4] == ';' {
            proof {
                assert(s.skip(5) =~= cs@.subrange(from + 5, to as int));
            }
            match unescape_range(cs, from + 5, to) {
                Some(mut v) => {
                    v.insert(0, '&');
                    Some(v)
                },
                None => None,
            }
        } else if to - from >= 6 && cs[from + 1] == 'q' && cs[from + 2] == 'u' && cs[from + 3]
            == 'o' && cs[from + 4] == 't' && cs[from + 5] == ';' {
            proof {
                assert(s.skip(6) =~= cs@.subrange(from + 6, to as int));
            }
            match unescape_range(cs, from + 6, to) {
                Some(mut v) => {
                    v.insert(0, '"');
                    Some(v)
                },
                None => None,
            }
        } else if to - from >= 6 && cs[from + 1] == 'a' && cs[from + 2] == 'p' && cs[from + 3]
            == 'o' && cs[from + 4] == 's' && cs[from + 5] == ';' {
            proof {
                assert(s.skip(6) =~= cs@.subrange(from + 6, to as int));
            }
            match unescape_range(cs, from + 6, to) {
                Some(mut v) => {
                    v.insert(0, '\'');
                    Some(v)
                },
                None => None,
            }
        } else {
            None
        }
    } else {
        proof {
            assert(s[0] == cs@[from as int]);
            assert(s.skip(1) =~= cs@.subrange(from + 1, to as int));
        }
        match unescape_range(cs, from + 1, to) {
            Some(mut v) => {
                v.insert(0, cs[from]);
                Some(v)
            },
            None => None,
        }
    }
}

/// The numeric value of a digit run.
pub open spec fn digits_val(s: Seq<char>) -> int
    decreases s.len(),
{
    if s.len() == 0 {
        0
    } else {
        digits_val(s.drop_last()) * 10 + (s.last() as int - '0' as int)
    }
}

/// Whether every character of the run is a decimal digit.
pub open spec fn all_digits(s: Seq<char>) -> bool {
    forall|i: int| 0 <= i < s.len() ==> is_digit(#[trigger] s[i])
}

/// The counter a declared attribute value denotes: a non-empty digit run
/// whose value fits in `u64`; anything else is rejected.
pub open spec fn spec_parse_u64(s: Seq<char>) -> Option<u64> {
    if s.len() > 0 && all_digits(s) && digits_val(s) <= u64::MAX {
        Some(digits_val(s) as u64)
    } else {
        None
    }
}

proof fn lemma_digits_val_nonneg(s: Seq<char>)
    requires
        all_digits(s),
    ensures
        digits_val(s) >= 0,
    decreases s.len(),
{
    if s.len() > 0 {
        assert(all_digits(s.drop_last())) by {
            assert(forall|i: int|
                0 <= i < s.len() - 1 ==> is_digit(#[trigger] s.drop_last()[i]) == is_digit(s[i]));
        }
        lemma_digits_val_nonneg(s.drop_last());
    }
}

proof fn lemma_digits_val_grows(s: Seq<char>, i: int)
    requires
        all_digits(s),
        0 <= i <= s.len(),
    ensures
        digits_val(s) >= digits_val(s.take(i)),
    decreases s.len() - i,
{
    assert(all_digits(s.take(i))) by {
        assert(forall|j: int|
            0 <= j < i ==> is_digit(#[trigger] s.take(i)[j]) == is_digit(s[j]));
    }
    if i < s.len() {
        lemma_digits_val_grows(s, i + 1);
        assert(s.take(i + 1).drop_last() =~= s.take(i));
        lemma_digits_val_nonneg(s.take(i));
        assert(digits_val(s.take(i + 1)) == digits_val(s.take(i)) * 10 + (s[i] as int - '0' as int));
    } else {
        assert(s.take(i) =~= s);
    }
}

/// Parses the run `cs[from..to]` as a decimal counter.
pub fn parse_u64_range(cs: &Vec<char>, from: usize, to: usize) -> (r: Option<u64>)
    requires
        from <= to <= cs@.len(),
    ensures
        r == spec_parse_u64(cs@.subrange(from as int, to as int)),
{
    let ghost s = cs@.subrange(from as int, to as int);
    if from == to {
        return None;
    }
    let mut acc: u64 = 0;
    let mut i: usize = from;
    while i < to
        invariant
            from <= i <= to <= cs@.len(),
            s == cs@.subrange(from as int, to as int),
            all_digits(s.take(i - from)),
            acc == digits_val(s.take(i - from)),
        decreases to - i,
    {
        let c = cs[i];
        if !(c >= '0' && c <= '9') {
            proof {
                assert(s[i - from] == c);
                assert(!is_digit(s[i - from]));
            }
            return None;
        }
        let d: u64 = (c as u32 as u64) - 48;
        proof {
            assert(s.take(i - from + 1).drop_last() =~= s.take(i - from));
            assert(s.take(i - from + 1).last() == s[i - from] == c);
            lemma_digits_val_nonneg(s.take(i - from));
        }
        let m = match acc.checked_mul(10) {
            Some(m) => m,
            None => {
                proof {
                    assert(digits_val(s.take(i - from + 1)) > u64::MAX);
                    lemma_digits_val_grows_failure(s, i - from + 1);
                }
                return None;
            },
        };
        let a = match m.checked_add(d) {
            Some(a) => a,
            None => {
                proof {
                    assert(digits_val(s.take(i - from + 1)) > u64::MAX);
                    lemma_digits_val_grows_failure(s, i - from + 1);
                }
                return None;
            },
        };
        acc = a;
        i = i + 1;
    }
    proof {
        assert(s.take(to - from) =~= s);
    }
    Some(acc)
}

proof fn lemma_digits_val_grows_failure(s: Seq<char>, i: int)
    requires
        0 <= i <= s.len(),
        all_digits(s.take(i)),
        digits_val(s.take(i)) > u64::MAX,
    ensures
        spec_parse_u64(s) is None,
{
    if all_digits(s) {
        lemma_digits_val_grows(s, i);
    } else {
        assert(!all_digits(s));
    }
}

/// Collects the characters of a string into a vector.
pub fn str_to_chars(s: &str) -> (v: Vec<char>)
    ensures
        v@ == s@,
{
    let n = s.unicode_len();
    let mut v: Vec<char> = Vec::new();
    let mut i: usize = 0;
    while i < n
        invariant
            0 <= i <= n,
            n == s@.len(),
            v@ == s@.take(i as int),
        decreases n - i,
    {
        let c = s.get_char(i);
        v.push(c);
        proof {
            assert(v@ =~= s@.take(i + 1));
        }
        i = i + 1;
    }
    proof {
        assert(s@.take(n as int) =~= s@);
    }
    v
}

/// Relies on `String::push`: appends the given character to the end of the
/// string.
#[verifier::external_body]
fn push_char(s: &mut String, c: char)
    ensures
        final(s)@ == old(s)@.push(c),
{
    s.push(c);
}

/// Builds a string holding exactly the characters `cs[from..to]`.
pub fn chars_to_string(cs: &Vec<char>, from: usize, to: usize) -> (s: String)
    requires
        from <= to <= cs@.len(),
    ensures
        s@ == cs@.subrange(from as int, to as int),
{
    let mut s = String::new();
    let mut i: usize = from;
    while i < to
        invariant
            from <= i <= to <= cs@.len(),
            s@ == cs@.subrange(from as int, i as int),
        decreases to - i,
    {
        push_char(&mut s, cs[i]);
        proof {
            assert(cs@.subrange(from as int, i as int).push(cs@[i as int]) =~= cs@.subrange(
                from as int,
                i + 1,
            ));
        }
        i = i + 1;
    }
    s
}

/// Tests the whitespace class.
pub fn ws_char(c: char) -> (r: bool)
    ensures
        r == is_xml_ws(c),
{
    c == ' ' || c == '\t' || c == '\r' || c == '\n'
}

/// Tests the name-character class.
pub fn name_char(c: char) -> (r: bool)
    ensures
        r == is_name_char(c),
{
    (c >= 'a' && c <= 'z') || (c >= 'A' && c <= 'Z') || (c >= '0' && c <= '9') || c == '-' || c
        == '_' || c == ':' || c == '.'
}

/// A character vector holds the same sequence under both views.
pub broadcast proof fn lemma_chars_deep_view(v: Vec<char>)
    ensures
        #[trigger] v.deep_view() == v@,
{
    assert(v.deep_view() =~= v@);
}

/// Copies the characters `cs[from..to]` into a fresh vector.
pub fn copy_range(cs: &Vec<char>, from: usize, to: usize) -> (v: Vec<char>)
    requires
        from <= to <= cs@.len(),
    ensures
        v@ == cs@.subrange(from as int, to as int),
{
    let mut v: Vec<char> = Vec::new();
    let mut i: usize = from;
    while i < to
        invariant
            from <= i <= to <= cs@.len(),
            v@ == cs@.subrange(from as int, i as int),
        decreases to - i,
    {
        v.push(cs[i]);
        proof {
            assert(cs@.subrange(from as int, i as int).push(cs@[i as int]) =~= cs@.subrange(
                from as int,
                i + 1,
            ));
        }
        i = i + 1;
    }
    v
}

/// Appends the characters of `b` to `a`.
pub fn concat_chars(a: Vec<char>, b: &Vec<char>) -> (v: Vec<char>)
    ensures
        v@ == a@ + b@,
{
    let mut v = a;
    let mut i: usize = 0;
    while i < b.len()
        invariant
            0 <= i <= b@.len(),
            v@ == a@ + b@.subrange(0, i as int),
        decreases b@.len() - i,
    {
        v.push(b[i]);
        proof {
            assert((a@ + b@.subrange(0, i as int)).push(b@[i as int]) =~= a@ + b@.subrange(
                0,
                i + 1,
            ));
        }
        i = i + 1;
    }
    proof {
        assert(a@ + b@.subrange(0, b@.len() as int) =~= a@ + b@);
    }
    v
}

/// Compares the characters `cs[from..to]` with a string.
pub fn eq_range_str(cs: &Vec<char>, from: usize, to: usize, pat: &str) -> (r: bool)
    requires
        from <= to <= cs@.len(),
    ensures
        r == (cs@.subrange(from as int, to as int) == pat@),
{
    let ghost sub = cs@.subrange(from as int, to as int);
    let n = pat.unicode_len();
    if to - from != n {
        proof {
            assert(sub.len() != pat@.len());
        }
        return false;
    }
    let mut k: usize = 0;
    while k < n
        invariant
            0 <= k <= n,
            n == pat@.len(),
            to - from == n,
            from <= to <= cs@.len(),
            sub == cs@.subrange(from as int, to as int),
            forall|t: int| 0 <= t < k ==> sub[t] == pat@[t],
        decreases n - k,
    {
        if cs[from + k] != pat.get_char(k) {
            proof {
                assert(sub[k as int] == cs@[from + k]);
            }
            return false;
        }
        k = k + 1;
    }
    proof {
        assert(sub =~= pat@);
    }
    true
}

/// Compares the characters `cs[from..to]` with another character vector.
pub fn eq_range_chars(cs: &Vec<char>, from: usize, to: usize, pat: &Vec<char>) -> (r: bool)
    requires
        from <= to <= cs@.len(),
    ensures
        r == (cs@.subrange(from as int, to as int) == pat@),
{
    let ghost sub = cs@.subrange(from as int, to as int);
    let n = pat.len();
    if to - from != n {
        proof {
            assert(sub.len() != pat@.len());
        }
        return false;
    }
    let mut k: usize = 0;
    while k < n
        invariant
            0 <= k <= n,
            n == pat@.len(),
            to - from == n,
            from <= to <= cs@.len(),
            sub == cs@.subrange(from as int, to as int),
            forall|t: int| 0 <= t < k ==> sub[t] == pat@[t],
        decreases n - k,
    {
        if cs[from + k] != pat[k] {
            proof {
                assert(sub[k as int] == cs@[from + k]);
            }
            return false;
        }
        k = k + 1;
    }
    proof {
        assert(sub =~= pat@);
    }
    true
}

} // verus!
