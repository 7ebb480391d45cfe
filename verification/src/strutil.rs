//! Verified text utilities: field splitting on a delimiter character or a
//! two-character delimiter, substring containment, suffix tests, and a
//! lexicographic order on strings. The job-listing sources hand the system
//! delimited tabular text, so everything downstream rests on these.

use vstd::prelude::*;
use vstd::string::*;

verus! {

/// The fields of `s` cut at every occurrence of the delimiter `d`.
/// Splitting never yields an empty sequence: a string without the
/// delimiter is one field.
pub open spec fn spec_split(s: Seq<char>, d: char) -> Seq<Seq<char>>
    decreases s.len(),
{
    if s.len() == 0 {
        seq![Seq::<char>::empty()]
    } else if s[0] == d {
        seq![Seq::<char>::empty()] + spec_split(s.drop_first(), d)
    } else {
        let r = spec_split(s.drop_first(), d);
        seq![seq![s[0]] + r[0]] + r.drop_first()
    }
}

pub proof fn lemma_split_len(s: Seq<char>, d: char)
    ensures
        spec_split(s, d).len() >= 1,
    decreases s.len(),
{
    if s.len() == 0 {
    } else {
        lemma_split_len(s.drop_first(), d);
    }
}

/// Splitting cuts at the first delimiter: everything strictly before the
/// first occurrence is the first field, and the rest splits on its own.
pub proof fn lemma_split_at_first(s: Seq<char>, d: char, i: int)
    requires
        0 <= i <= s.len(),
        forall|k: int| 0 <= k < i ==> s[k] != d,
        i < s.len() ==> s[i] == d,
    ensures
        i == s.len() ==> spec_split(s, d) =~~= seq![s],
        i < s.len() ==> spec_split(s, d) =~~= seq![s.subrange(0, i)] + spec_split(
            s.subrange(i + 1, s.len() as int),
            d,
        ),
    decreases i,
{
    lemma_split_len(s, d);
    if i == 0 {
        if s.len() == 0 {
            assert(spec_split(s, d) =~~= seq![s]);
        } else if i < s.len() {
            assert(s.drop_first() =~= s.subrange(1, s.len() as int));
            assert(s.subrange(0, 0) =~= Seq::<char>::empty());
        }
    } else {
        let t = s.drop_first();
        lemma_split_at_first(t, d, i - 1);
        lemma_split_len(t, d);
        let r = spec_split(t, d);
        if i == s.len() {
            assert(r =~~= seq![t]);
            assert(seq![s[0]] + t =~= s);
            assert(spec_split(s, d) =~~= seq![s]);
        } else {
            assert(r =~~= seq![t.subrange(0, i - 1)] + spec_split(t.subrange(i, t.len() as int), d));
            assert(r[0] =~= t.subrange(0, i - 1));
            assert(seq![s[0]] + t.subrange(0, i - 1) =~= s.subrange(0, i));
            assert(t.subrange(i, t.len() as int) =~= s.subrange(i + 1, s.len() as int));
            assert(r.drop_first() =~~= spec_split(s.subrange(i + 1, s.len() as int), d));
            assert(spec_split(s, d) =~~= seq![s.subrange(0, i)] + spec_split(
                s.subrange(i + 1, s.len() as int),
                d,
            ));
        }
    }
}

/// Cuts `s` into fields at every occurrence of `d`.
pub fn split_char(s: &str, d: char) -> (r: Vec<String>)
    ensures
        r.deep_view() == spec_split(s@, d),
{
    let n: usize = s.unicode_len();
    let mut r: Vec<String> = Vec::new();
    let mut start: usize = 0;
    let mut i: usize = 0;
    proof {
        assert(s@.subrange(0, n as int) =~= s@);
        assert(r.deep_view() =~~= Seq::<Seq<char>>::empty());
    }
    while i < n
        invariant
            start <= i <= n,
            n == s@.len(),
            forall|k: int| start <= k < i ==> s@[k] != d,
            spec_split(s@, d) =~~= r.deep_view() + spec_split(
                s@.subrange(start as int, n as int),
                d,
            ),
        decreases n - i,
    {
        if s.get_char(i) == d {
            let f = s.substring_char(start, i);
            let fs = String::from_str(f);
            let ghost prev = r.deep_view();
            proof {
                let tail = s@.subrange(start as int, n as int);
                lemma_split_at_first(tail, d, i - start);
                assert(tail.subrange(0, i - start) =~= s@.subrange(start as int, i as int));
                assert(tail.subrange(i - start + 1, tail.len() as int) =~= s@.subrange(
                    i + 1,
                    n as int,
                ));
            }
            r.push(fs);
            proof {
                assert(r.deep_view() =~~= prev.push(fs@));
            }
            start = i + 1;
        }
        i += 1;
    }
    let f = s.substring_char(start, n);
    let fs = String::from_str(f);
    let ghost prev = r.deep_view();
    proof {
        let tail = s@.subrange(start as int, n as int);
        lemma_split_at_first(tail, d, tail.len() as int);
    }
    r.push(fs);
    proof {
        assert(r.deep_view() =~~= prev.push(fs@));
        assert(r.deep_view() =~~= spec_split(s@, d));
    }
    r
}

/// The fields of `s` cut at every occurrence of the two-character
/// delimiter `d0 d1`, scanning left to right without overlap.
pub open spec fn spec_split2(s: Seq<char>, d0: char, d1: char) -> Seq<Seq<char>>
    decreases s.len(),
{
    if s.len() >= 2 && s[0] == d0 && s[1] == d1 {
        seq![Seq::<char>::empty()] + spec_split2(s.skip(2), d0, d1)
    } else if s.len() == 0 {
        seq![Seq::<char>::empty()]
    } else {
        let r = spec_split2(s.drop_first(), d0, d1);
        seq![seq![s[0]] + r[0]] + r.drop_first()
    }
}

pub proof fn lemma_split2_len(s: Seq<char>, d0: char, d1: char)
    ensures
        spec_split2(s, d0, d1).len() >= 1,
    decreases s.len(),
{
    if s.len() >= 2 && s[0] == d0 && s[1] == d1 {
        lemma_split2_len(s.skip(2), d0, d1);
    } else if s.len() == 0 {
    } else {
        lemma_split2_len(s.drop_first(), d0, d1);
    }
}

/// Splitting on a two-character delimiter cuts at its first occurrence.
pub proof fn lemma_split2_at_first(s: Seq<char>, d0: char, d1: char, i: int)
    requires
        0 <= i,
        i + 2 <= s.len() || i == s.len(),
        forall|k: int| 0 <= k && k + 2 <= s.len() && k < i ==> !(#[trigger] s[k] == d0 && s[k + 1] == d1),
        i + 2 <= s.len() ==> s[i] == d0 && s[i + 1] == d1,
        i == s.len() ==> forall|k: int|
            0 <= k && k + 2 <= s.len() ==> !(#[trigger] s[k] == d0 && s[k + 1] == d1),
    ensures
        i == s.len() ==> spec_split2(s, d0, d1) =~~= seq![s],
        i + 2 <= s.len() ==> spec_split2(s, d0, d1) =~~= seq![s.subrange(0, i)] + spec_split2(
            s.skip(i + 2),
            d0,
            d1,
        ),
    decreases s.len(),
{
    lemma_split2_len(s, d0, d1);
    if i == s.len() {
        if s.len() == 0 {
            assert(spec_split2(s, d0, d1) =~~= seq![s]);
        } else {
            let t = s.drop_first();
            lemma_split2_at_first(t, d0, d1, t.len() as int);
            lemma_split2_len(t, d0, d1);
            assert(spec_split2(t, d0, d1) =~~= seq![t]);
            assert(seq![s[0]] + t =~= s);
            assert(spec_split2(s, d0, d1) =~~= seq![s]);
        }
    } else if i == 0 {
        assert(s.subrange(0, 0) =~= Seq::<char>::empty());
    } else {
        let t = s.drop_first();
        lemma_split2_at_first(t, d0, d1, i - 1);
        lemma_split2_len(t, d0, d1);
        let r = spec_split2(t, d0, d1);
        assert(r =~~= seq![t.subrange(0, i - 1)] + spec_split2(t.skip(i + 1), d0, d1));
        assert(seq![s[0]] + t.subrange(0, i - 1) =~= s.subrange(0, i));
        assert(t.skip(i + 1) =~= s.skip(i + 2));
        assert(spec_split2(s, d0, d1) =~~= seq![s.subrange(0, i)] + spec_split2(
            s.skip(i + 2),
            d0,
            d1,
        ));
    }
}

/// Cuts `s` into fields at every occurrence of the two-character
/// delimiter `d0 d1`.
pub fn split_str2(s: &str, d0: char, d1: char) -> (r: Vec<String>)
    ensures
        r.deep_view() == spec_split2(s@, d0, d1),
{
    let n: usize = s.unicode_len();
    let mut r: Vec<String> = Vec::new();
    let mut start: usize = 0;
    let mut i: usize = 0;
    proof {
        assert(s@.subrange(0, n as int) =~= s@);
        assert(r.deep_view() =~~= Seq::<Seq<char>>::empty());
    }
    while i < n && i < n - 1
        invariant
            start <= i,
            i <= n,
            n == s@.len(),
            forall|k: int|
                start <= k && k + 2 <= n && k < i ==> !(#[trigger] s@[k] == d0 && s@[k + 1]
                    == d1),
            spec_split2(s@, d0, d1) =~~= r.deep_view() + spec_split2(
                s@.subrange(start as int, n as int),
                d0,
                d1,
            ),
        decreases n - i,
    {
        if s.get_char(i) == d0 && s.get_char(i + 1) == d1 {
            let f = s.substring_char(start, i);
            let fs = String::from_str(f);
            let ghost prev = r.deep_view();
            proof {
                let tail = s@.subrange(start as int, n as int);
                lemma_split2_at_first(tail, d0, d1, i - start);
                assert(tail.subrange(0, i - start) =~= s@.subrange(start as int, i as int));
                assert(tail.skip(i - start + 2) =~= s@.subrange(i + 2, n as int));
            }
            r.push(fs);
            proof {
                assert(r.deep_view() =~~= prev.push(fs@));
            }
            start = i + 2;
            i += 2;
        } else {
            i += 1;
        }
    }
    let f = s.substring_char(start, n);
    let fs = String::from_str(f);
    let ghost prev = r.deep_view();
    proof {
        let tail = s@.subrange(start as int, n as int);
        lemma_split2_at_first(tail, d0, d1, tail.len() as int);
    }
    r.push(fs);
    proof {
        assert(r.deep_view() =~~= prev.push(fs@));
        assert(r.deep_view() =~~= spec_split2(s@, d0, d1));
    }
    r
}

/// True when `s` and `t` hold the same characters.
pub fn str_eq(s: &str, t: &str) -> (r: bool)
    ensures
        r == (s@ == t@),
{
    let n: usize = s.unicode_len();
    if n != t.unicode_len() {
        return false;
    }
    let mut i: usize = 0;
    while i < n
        invariant
            i <= n,
            n == s@.len() == t@.len(),
            forall|k: int| 0 <= k < i ==> s@[k] == t@[k],
        decreases n - i,
    {
        if s.get_char(i) != t.get_char(i) {
            return false;
        }
        i += 1;
    }
    proof {
        assert(s@ =~= t@);
    }
    true
}

/// A line with a trailing carriage return loses it.
pub open spec fn spec_strip_cr(l: Seq<char>) -> Seq<char> {
    if l.len() > 0 && l.last() == '\r' {
        l.drop_last()
    } else {
        l
    }
}

/// The lines of `s`: fields cut at every newline, a trailing empty field
/// dropped, and a trailing carriage return stripped off each line.
pub open spec fn spec_lines(s: Seq<char>) -> Seq<Seq<char>> {
    let raw = spec_split(s, '\n');
    let t = if raw.len() > 0 && raw.last().len() == 0 {
        raw.drop_last()
    } else {
        raw
    };
    t.map_values(|l: Seq<char>| spec_strip_cr(l))
}

/// Cuts `s` into lines.
pub fn split_lines(s: &str) -> (r: Vec<String>)
    ensures
        r.deep_view() == spec_lines(s@),
{
    let mut parts = split_char(s, '\n');
    let ghost raw = parts.deep_view();
    if parts.len() > 0 && parts[parts.len() - 1].as_str().unicode_len() == 0 {
        parts.pop();
        proof {
            assert(parts.deep_view() =~~= raw.drop_last());
        }
    }
    let ghost t = parts.deep_view();
    proof {
        assert(t == if raw.len() > 0 && raw.last().len() == 0 {
            raw.drop_last()
        } else {
            raw
        });
    }
    let mut out: Vec<String> = Vec::new();
    let mut i: usize = 0;
    while i < parts.len()
        invariant
            i <= parts.len(),
            parts.deep_view() == t,
            out.len() == i,
            forall|k: int| 0 <= k < i ==> out.deep_view()[k] == spec_strip_cr(t[k]),
        decreases parts.len() - i,
    {
        let p = parts[i].as_str();
        let n: usize = p.unicode_len();
        proof {
            assert(p@ == t[i as int]);
        }
        let ghost prev = out.deep_view();
        if n > 0 && p.get_char(n - 1) == '\r' {
            let w = p.substring_char(0, n - 1);
            let ws = String::from_str(w);
            proof {
                assert(w@ =~= t[i as int].drop_last());
            }
            out.push(ws);
            proof {
                assert(out.deep_view() =~~= prev.push(ws@));
            }
        } else {
            let c = parts[i].clone();
            out.push(c);
            proof {
                assert(out.deep_view() =~~= prev.push(c@));
            }
        }
        i += 1;
    }
    proof {
        assert(out.deep_view() =~~= t.map_values(|l: Seq<char>| spec_strip_cr(l)));
    }
    out
}

/// `pat` occurs in `s` starting at position `i`.
pub open spec fn spec_matches_at(s: Seq<char>, pat: Seq<char>, i: int) -> bool {
    0 <= i && i + pat.len() <= s.len() && s.subrange(i, i + pat.len() as int) == pat
}

/// `pat` occurs in `s` as a contiguous substring.
pub open spec fn spec_contains(s: Seq<char>, pat: Seq<char>) -> bool {
    exists|i: int| #[trigger] spec_matches_at(s, pat, i)
}

/// True when `pat` occurs somewhere in `s`.
pub fn contains_str(s: &str, pat: &str) -> (r: bool)
    ensures
        r == spec_contains(s@, pat@),
{
    let n: usize = s.unicode_len();
    let m: usize = pat.unicode_len();
    if m > n {
        return false;
    }
    if m == 0 {
        proof {
            assert(s@.subrange(0, 0 + pat@.len() as int) =~= pat@);
            assert(spec_matches_at(s@, pat@, 0));
        }
        return true;
    }
    let mut i: usize = 0;
    while i <= n - m
        invariant
            i <= n - m + 1,
            0 < m <= n,
            n == s@.len(),
            m == pat@.len(),
            forall|k: int| 0 <= k < i ==> !(#[trigger] spec_matches_at(s@, pat@, k)),
        decreases n - i,
    {
        let w = s.substring_char(i, i + m);
        if str_eq(w, pat) {
            proof {
                assert(spec_matches_at(s@, pat@, i as int));
            }
            return true;
        }
        i += 1;
    }
    false
}

/// `s` ends with `pat`.
pub open spec fn spec_ends_with(s: Seq<char>, pat: Seq<char>) -> bool {
    pat.len() <= s.len() && s.subrange(s.len() - pat.len(), s.len() as int) == pat
}

/// True when `s` ends with `pat`.
pub fn ends_with_str(s: &str, pat: &str) -> (r: bool)
    ensures
        r == spec_ends_with(s@, pat@),
{
    let n: usize = s.unicode_len();
    let m: usize = pat.unicode_len();
    if m > n {
        return false;
    }
    let w = s.substring_char(n - m, n);
    str_eq(w, pat)
}

/// Lexicographic order over character sequences, by code point; the order
/// the registry is sorted in.
pub open spec fn lex_le(a: Seq<char>, b: Seq<char>) -> bool
    decreases a.len(),
{
    if a.len() == 0 {
        true
    } else if b.len() == 0 {
        false
    } else if (a[0] as u32) < (b[0] as u32) {
        true
    } else if (b[0] as u32) < (a[0] as u32) {
        false
    } else {
        lex_le(a.drop_first(), b.drop_first())
    }
}

/// The order is total: of two strings one precedes the other.
pub proof fn lemma_lex_le_total(a: Seq<char>, b: Seq<char>)
    ensures
        lex_le(a, b) || lex_le(b, a),
    decreases a.len(),
{
    if a.len() == 0 || b.len() == 0 {
    } else if (a[0] as u32) == (b[0] as u32) {
        lemma_lex_le_total(a.drop_first(), b.drop_first());
    }
}

/// The order is transitive.
pub proof fn lemma_lex_le_trans(a: Seq<char>, b: Seq<char>, c: Seq<char>)
    requires
        lex_le(a, b),
        lex_le(b, c),
    ensures
        lex_le(a, c),
    decreases a.len(),
{
    if a.len() == 0 || b.len() == 0 || c.len() == 0 {
    } else if (a[0] as u32) == (b[0] as u32) && (b[0] as u32) == (c[0] as u32) {
        lemma_lex_le_trans(a.drop_first(), b.drop_first(), c.drop_first());
    }
}

/// Two strings that precede each other are equal.
pub proof fn lemma_lex_le_antisymmetric(a: Seq<char>, b: Seq<char>)
    requires
        lex_le(a, b),
        lex_le(b, a),
    ensures
        a == b,
    decreases a.len(),
{
    if a.len() == 0 {
    } else if b.len() == 0 {
    } else {
        assert(a[0] == b[0]) by {
            vstd::utf8::char_u32_cast(a[0], a[0] as u32);
            vstd::utf8::char_u32_cast(b[0], b[0] as u32);
        }
        lemma_lex_le_antisymmetric(a.drop_first(), b.drop_first());
        assert(a.drop_first().len() == b.drop_first().len());
        assert forall|k: int| 0 <= k < a.len() implies a[k] == b[k] by {
            if k > 0 {
                assert(a[k] == a.drop_first()[k - 1]);
                assert(b[k] == b.drop_first()[k - 1]);
            }
        }
        assert(a =~= b);
    }
}

/// True when `a` precedes `b` (or equals it) in lexicographic order.
pub fn str_lex_le(a: &str, b: &str) -> (r: bool)
    ensures
        r == lex_le(a@, b@),
    decreases a@.len(),
{
    let an: usize = a.unicode_len();
    let bn: usize = b.unicode_len();
    if an == 0 {
        true
    } else if bn == 0 {
        false
    } else {
        let ca = a.get_char(0);
        let cb = b.get_char(0);
        if (ca as u32) < (cb as u32) {
            true
        } else if (cb as u32) < (ca as u32) {
            false
        } else {
            let ta = a.substring_char(1, an);
            let tb = b.substring_char(1, bn);
            proof {
                assert(ta@ =~= a@.drop_first());
                assert(tb@ =~= b@.drop_first());
            }
            str_lex_le(ta, tb)
        }
    }
}

} // verus!
