//! Character-level text utilities shared by the parsing code: conversion
//! between `String` and `Vec<char>`, whitespace trimming, and separator
//! splitting, each proved against a spec-level definition.

use vstd::prelude::*;
use vstd::string::StrSliceExecFns;

verus! {

/// Relies on String::push: appends exactly one character.
#[verifier::external_body]
pub fn push_char(s: &mut String, c: char)
    ensures
        final(s)@ == old(s)@.push(c),
{
    s.push(c);
}

/// The characters of `s`, as a vector.
pub fn to_chars(s: &str) -> (r: Vec<char>)
    ensures
        r@ == s@,
{
    let n = s.unicode_len();
    let mut r: Vec<char> = Vec::new();
    let mut i: usize = 0;
    while i < n
        invariant
            i <= n,
            n == s@.len(),
            r@ == s@.subrange(0, i as int),
        decreases n - i,
    {
        r.push(s.get_char(i));
        assert(r@ =~= s@.subrange(0, i + 1 as int));
        i += 1;
    }
    assert(r@ =~= s@);
    r
}

/// A `String` holding exactly the characters of `v`.
pub fn from_chars(v: &Vec<char>) -> (r: String)
    ensures
        r@ == v@,
{
    let mut r = String::new();
    let mut i: usize = 0;
    while i < v.len()
        invariant
            i <= v@.len(),
            r@ == v@.subrange(0, i as int),
        decreases v@.len() - i,
    {
        push_char(&mut r, v[i]);
        assert(r@ =~= v@.subrange(0, i + 1 as int));
        i += 1;
    }
    assert(r@ =~= v@);
    r
}

/// The characters of `v` from `from` (inclusive) to `to` (exclusive).
pub fn copy_range(v: &Vec<char>, from: usize, to: usize) -> (r: Vec<char>)
    requires
        from <= to <= v@.len(),
    ensures
        r@ == v@.subrange(from as int, to as int),
{
    let mut r: Vec<char> = Vec::new();
    let mut i: usize = from;
    while i < to
        invariant
            from <= i <= to <= v@.len(),
            r@ == v@.subrange(from as int, i as int),
        decreases to - i,
    {
        r.push(v[i]);
        assert(r@ =~= v@.subrange(from as int, i + 1 as int));
        i += 1;
    }
    r
}

/// The views of a vector of character vectors.
pub open spec fn views_of(vs: Seq<Vec<char>>) -> Seq<Seq<char>> {
    vs.map_values(|v: Vec<char>| v@)
}

/// Splitting `s` at every occurrence of `sep`. Splitting the empty sequence
/// yields one empty part, as `str::split` does.
pub open spec fn split_on(s: Seq<char>, sep: char) -> Seq<Seq<char>>
    decreases s.len(),
{
    if s.len() == 0 {
        seq![Seq::<char>::empty()]
    } else if s[0] == sep {
        seq![Seq::<char>::empty()] + split_on(s.skip(1), sep)
    } else {
        let rest = split_on(s.skip(1), sep);
        seq![seq![s[0]] + rest[0]] + rest.skip(1)
    }
}

pub proof fn lemma_split_on_len(s: Seq<char>, sep: char)
    ensures
        split_on(s, sep).len() >= 1,
    decreases s.len(),
{
    if s.len() > 0 {
        lemma_split_on_len(s.skip(1), sep);
    }
}

fn split_from(v: &Vec<char>, from: usize, sep: char) -> (r: Vec<Vec<char>>)
    requires
        from <= v@.len(),
    ensures
        views_of(r@) == split_on(v@.skip(from as int), sep),
    decreases v@.len() - from,
{
    proof {
        lemma_split_on_len(v@.skip(from as int), sep);
    }
    if from == v.len() {
        let mut r: Vec<Vec<char>> = Vec::new();
        r.push(Vec::new());
        assert(v@.skip(from as int) =~= Seq::<char>::empty());
        assert(views_of(r@) =~~= split_on(v@.skip(from as int), sep));
        r
    } else {
        let c = v[from];
        let mut rest = split_from(v, from + 1, sep);
        let ghost rest_parts = split_on(v@.skip(from + 1 as int), sep);
        proof {
            lemma_split_on_len(v@.skip(from + 1 as int), sep);
            assert(v@.skip(from as int).skip(1) =~= v@.skip(from + 1 as int));
            assert(v@.skip(from as int)[0] == v@[from as int]);
        }
        if c == sep {
            let mut r: Vec<Vec<char>> = Vec::new();
            r.push(Vec::new());
            r.append(&mut rest);
            assert(views_of(r@) =~~= split_on(v@.skip(from as int), sep));
            r
        } else {
            let mut first = rest.remove(0);
            proof {
                assert(first@ == rest_parts[0]);
            }
            first.insert(0, c);
            proof {
                assert(first@ =~= seq![v@[from as int]] + rest_parts[0]);
            }
            rest.insert(0, first);
            assert(views_of(rest@) =~~= split_on(v@.skip(from as int), sep));
            rest
        }
    }
}

/// The parts of `v` separated by `sep`, outermost function of [`split_on`].
pub fn split_vec(v: &Vec<char>, sep: char) -> (r: Vec<Vec<char>>)
    ensures
        views_of(r@) == split_on(v@, sep),
        r@.len() >= 1,
{
    proof {
        lemma_split_on_len(v@, sep);
        assert(v@.skip(0) =~= v@);
    }
    split_from(v, 0, sep)
}

/// The Unicode white-space characters, as `str::trim` removes them.
pub open spec fn is_space(c: char) -> bool {
    ||| c == '\t' || c == '\n' || c == '\x0b' || c == '\x0c' || c == '\r' || c == ' '
    ||| c == '\u{85}' || c == '\u{a0}' || c == '\u{1680}'
    ||| ('\u{2000}' <= c && c <= '\u{200a}')
    ||| c == '\u{2028}' || c == '\u{2029}' || c == '\u{202f}' || c == '\u{205f}'
    ||| c == '\u{3000}'
}

/// Quote and bracket characters stripped around a `for=` parameter value.
pub open spec fn is_quote_or_bracket(c: char) -> bool {
    c == '"' || c == '[' || c == ']'
}

/// Which set of characters a trim strips.
#[derive(Debug, Clone, Copy, PartialEq, Eq, Structural)]
pub enum TrimClass {
    Whitespace,
    QuoteBracket,
}

pub open spec fn in_class(k: TrimClass, c: char) -> bool {
    match k {
        TrimClass::Whitespace => is_space(c),
        TrimClass::QuoteBracket => is_quote_or_bracket(c),
    }
}

fn char_in_class(k: TrimClass, c: char) -> (r: bool)
    ensures
        r == in_class(k, c),
{
    match k {
        TrimClass::Whitespace => {
            c == '\t' || c == '\n' || c == '\x0b' || c == '\x0c' || c == '\r' || c == ' '
                || c == '\u{85}' || c == '\u{a0}' || c == '\u{1680}' || ('\u{2000}' <= c && c
                <= '\u{200a}') || c == '\u{2028}' || c == '\u{2029}' || c == '\u{202f}' || c
                == '\u{205f}' || c == '\u{3000}'
        },
        TrimClass::QuoteBracket => c == '"' || c == '[' || c == ']',
    }
}

/// `s` with every leading character of the class removed.
pub open spec fn trim_start_spec(k: TrimClass, s: Seq<char>) -> Seq<char>
    decreases s.len(),
{
    if s.len() > 0 && in_class(k, s[0]) {
        trim_start_spec(k, s.skip(1))
    } else {
        s
    }
}

/// `s` with every trailing character of the class removed.
pub open spec fn trim_end_spec(k: TrimClass, s: Seq<char>) -> Seq<char>
    decreases s.len(),
{
    if s.len() > 0 && in_class(k, s.last()) {
        trim_end_spec(k, s.drop_last())
    } else {
        s
    }
}

/// `s` with the class trimmed from both ends.
pub open spec fn trim_spec(k: TrimClass, s: Seq<char>) -> Seq<char> {
    trim_end_spec(k, trim_start_spec(k, s))
}

fn first_kept(v: &Vec<char>, k: TrimClass, from: usize) -> (r: usize)
    requires
        from <= v@.len(),
    ensures
        from <= r <= v@.len(),
        trim_start_spec(k, v@.skip(from as int)) == v@.skip(r as int),
    decreases v@.len() - from,
{
    if from < v.len() && char_in_class(k, v[from]) {
        proof {
            assert(v@.skip(from as int).skip(1) =~= v@.skip(from + 1 as int));
        }
        first_kept(v, k, from + 1)
    } else {
        proof {
            if from < v@.len() {
                assert(v@.skip(from as int)[0] == v@[from as int]);
            } else {
                assert(v@.skip(from as int) =~= Seq::<char>::empty());
            }
        }
        from
    }
}

fn last_kept(v: &Vec<char>, k: TrimClass, upto: usize) -> (r: usize)
    requires
        upto <= v@.len(),
    ensures
        r <= upto,
        trim_end_spec(k, v@.take(upto as int)) == v@.take(r as int),
    decreases upto,
{
    if upto > 0 && char_in_class(k, v[upto - 1]) {
        proof {
            assert(v@.take(upto as int).last() == v@[upto - 1]);
            assert(v@.take(upto as int).drop_last() =~= v@.take(upto - 1));
        }
        last_kept(v, k, upto - 1)
    } else {
        proof {
            if upto > 0 {
                assert(v@.take(upto as int).last() == v@[upto - 1]);
            } else {
                assert(v@.take(upto as int) =~= Seq::<char>::empty());
            }
        }
        upto
    }
}

/// `v` trimmed on both ends, outermost function of [`trim_spec`].
pub fn trim_vec(v: &Vec<char>, k: TrimClass) -> (r: Vec<char>)
    ensures
        r@ == trim_spec(k, v@),
{
    let i = first_kept(v, k, 0);
    proof {
        assert(v@.skip(0) =~= v@);
    }
    let sub = copy_range(v, i, v.len());
    proof {
        assert(v@.subrange(i as int, v@.len() as int) =~= v@.skip(i as int));
    }
    let j = last_kept(&sub, k, sub.len());
    proof {
        assert(sub@.take(sub@.len() as int) =~= sub@);
    }
    let out = copy_range(&sub, 0, j);
    proof {
        assert(sub@.subrange(0, j as int) =~= sub@.take(j as int));
    }
    out
}

/// True when `v` begins with the characters of `p`.
pub fn starts_with_chars(v: &Vec<char>, p: &Vec<char>) -> (r: bool)
    ensures
        r == (v@.len() >= p@.len() && v@.subrange(0, p@.len() as int) == p@),
{
    if v.len() < p.len() {
        return false;
    }
    let mut i: usize = 0;
    while i < p.len()
        invariant
            i <= p@.len() <= v@.len(),
            forall|j: int| 0 <= j < i ==> v@[j] == p@[j],
        decreases p@.len() - i,
    {
        if v[i] != p[i] {
            assert(v@.subrange(0, p@.len() as int)[i as int] != p@[i as int]);
            return false;
        }
        i += 1;
    }
    assert(v@.subrange(0, p@.len() as int) =~= p@);
    true
}

/// Decimal digits.
pub open spec fn is_digit(c: char) -> bool {
    '0' <= c && c <= '9'
}

pub open spec fn digit_val(c: char) -> int {
    c as int - '0' as int
}

/// The numeric value of a digit string, most significant digit first.
pub open spec fn dec_value(s: Seq<char>) -> int
    decreases s.len(),
{
    if s.len() == 0 {
        0
    } else {
        dec_value(s.drop_last()) * 10 + digit_val(s.last())
    }
}

pub open spec fn all_digits(s: Seq<char>) -> bool {
    forall|i: int| 0 <= i < s.len() ==> is_digit(#[trigger] s[i])
}

} // verus!
