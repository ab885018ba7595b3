//! Text as sequences of characters: conversion between strings and
//! character vectors, searching, and case folding.

use vstd::prelude::*;
use vstd::slice::slice_subrange;

verus! {

/// The lower-case form of `s` under Unicode's case mapping, as
/// `str::to_lowercase` computes it.  The mapping fills many pages of tables
/// and depends on context (a final sigma), so it is only named here.
pub uninterp spec fn lowercase_of(s: Seq<char>) -> Seq<char>;

/// Trusted: calls `str::to_lowercase`.  Claims only that the returned string
/// is the lower-case form of the argument, which is a function of the
/// argument's characters alone.
#[verifier::external_body]
fn to_lowercase(s: &str) -> (lowered: String)
    ensures
        lowered@ == lowercase_of(s@),
{
    s.to_lowercase()
}

/// Trusted: `String::push` appends the given character to the end of the
/// string and changes nothing else.
pub assume_specification[ String::push ](s: &mut String, c: char)
    ensures
        final(s)@ == old(s)@.push(c),
;

/// Case folding as the catalog's search uses it: the empty text stays empty,
/// every other text is mapped to lower case.
pub open spec fn folded(s: Seq<char>) -> Seq<char> {
    if s.len() == 0 {
        s
    } else {
        lowercase_of(s)
    }
}

/// `needle` stands in `hay` at position `at`.
pub open spec fn occurs_at(needle: Seq<char>, hay: Seq<char>, at: int) -> bool {
    &&& 0 <= at
    &&& at + needle.len() <= hay.len()
    &&& hay.subrange(at, at + needle.len()) == needle
}

/// `needle` is a contiguous part of `hay`.  The empty text is part of every
/// text.
pub open spec fn occurs_in(needle: Seq<char>, hay: Seq<char>) -> bool {
    exists|at: int| occurs_at(needle, hay, at)
}

/// The characters of a string, in order.
pub fn chars_of(s: &str) -> (out: Vec<char>)
    ensures
        out@ == s@,
{
    let mut out: Vec<char> = Vec::new();
    for c in it: s.chars()
        invariant
            it.seq() == s@,
            out@ == it.seq().take(it.index() as int),
    {
        out.push(c);
    }
    out
}

/// The string made of the given characters, in order.
pub fn text_of(chars: &[char]) -> (out: String)
    ensures
        out@ == chars@,
{
    let mut out = String::new();
    let mut i: usize = 0;
    while i < chars.len()
        invariant
            i <= chars.len(),
            out@ == chars@.take(i as int),
        decreases chars.len() - i,
    {
        out.push(chars[i]);
        i += 1;
    }
    out
}

/// The case-folded form of a string.
pub fn fold_case(s: &str) -> (out: String)
    ensures
        out@ == folded(s@),
{
    if s.is_empty() {
        String::new()
    } else {
        to_lowercase(s)
    }
}

/// Whether two character slices hold the same text.
pub fn same_chars(a: &[char], b: &[char]) -> (same: bool)
    ensures
        same == (a@ == b@),
{
    if a.len() != b.len() {
        return false;
    }
    let mut i: usize = 0;
    while i < a.len()
        invariant
            a.len() == b.len(),
            i <= a.len(),
            a@.take(i as int) == b@.take(i as int),
        decreases a.len() - i,
    {
        if a[i] != b[i] {
            return false;
        }
        assert(a@.take(i + 1) == a@.take(i as int).push(a@[i as int]));
        assert(b@.take(i + 1) == b@.take(i as int).push(b@[i as int]));
        i += 1;
    }
    assert(a@.take(a.len() as int) == a@);
    assert(b@.take(b.len() as int) == b@);
    true
}

/// Whether `s` begins with `prefix`.
pub fn starts_with(s: &[char], prefix: &[char]) -> (yes: bool)
    ensures
        yes == prefix@.is_prefix_of(s@),
{
    if prefix.len() > s.len() {
        return false;
    }
    same_chars(slice_subrange(s, 0, prefix.len()), prefix)
}

/// The position of the first `c` in `s`, if there is one.
pub fn find_first(s: &[char], c: char) -> (found: Option<usize>)
    ensures
        match found {
            Some(i) => {
                &&& i < s.len()
                &&& s@[i as int] == c
                &&& forall|j: int| 0 <= j < i ==> s@[j] != c
                &&& s@.index_of_first(c) == Some(i as int)
            },
            None => !s@.contains(c) && s@.index_of_first(c) is None,
        },
{
    let mut i: usize = 0;
    while i < s.len()
        invariant
            i <= s.len(),
            forall|j: int| 0 <= j < i ==> s@[j] != c,
        decreases s.len() - i,
    {
        if s[i] == c {
            proof {
                assert(s@.contains(c));
                s@.index_of_first_ensures(c);
            }
            return Some(i);
        }
        i += 1;
    }
    proof {
        s@.index_of_first_ensures(c);
    }
    None
}

/// The position of the last `c` in `s`, if there is one.
pub fn find_last(s: &[char], c: char) -> (found: Option<usize>)
    ensures
        match found {
            Some(i) => {
                &&& i < s.len()
                &&& s@[i as int] == c
                &&& forall|j: int| i < j < s.len() ==> s@[j] != c
                &&& s@.index_of_last(c) == Some(i as int)
            },
            None => !s@.contains(c) && s@.index_of_last(c) is None,
        },
{
    let mut i: usize = s.len();
    while i > 0
        invariant
            i <= s.len(),
            forall|j: int| i <= j < s.len() ==> s@[j] != c,
        decreases i,
    {
        i -= 1;
        if s[i] == c {
            proof {
                assert(s@.contains(c));
                s@.index_of_last_ensures(c);
            }
            return Some(i);
        }
    }
    proof {
        s@.index_of_last_ensures(c);
    }
    None
}

/// Whether `needle` stands in `hay` at position `at`.
fn matches_at(hay: &[char], needle: &[char], at: usize) -> (yes: bool)
    requires
        at + needle.len() <= hay.len(),
    ensures
        yes == occurs_at(needle@, hay@, at as int),
{
    same_chars(slice_subrange(hay, at, at + needle.len()), needle)
}

/// Whether `needle` is a contiguous part of `hay`.
pub fn contains(hay: &[char], needle: &[char]) -> (yes: bool)
    ensures
        yes == occurs_in(needle@, hay@),
{
    if needle.len() > hay.len() {
        return false;
    }
    let last: usize = hay.len() - needle.len();
    let mut at: usize = 0;
    loop
        invariant
            last == hay.len() - needle.len(),
            at <= last,
            forall|k: int| 0 <= k < at ==> !occurs_at(needle@, hay@, k),
        decreases last - at,
    {
        if matches_at(hay, needle, at) {
            return true;
        }
        if at == last {
            return false;
        }
        at += 1;
    }
}

} // verus!
