//! Verified text utilities: conversion between strings and character
//! vectors, searching, splitting, trimming and number formatting.
//!
//! Every parser of the library works over sequences of characters, so the
//! functions here carry exact contracts over `Seq<char>`.

use vstd::prelude::*;

verus! {

/// Relies on `String::push`: appends exactly one character to the string.
#[verifier::external_body]
pub fn push_char(s: &mut String, c: char)
    ensures
        final(s)@ == old(s)@.push(c),
{
    s.push(c);
}

/// Collects the characters of a string slice into a vector.
pub fn chars_vec(s: &str) -> (v: Vec<char>)
    ensures
        v@ == s@,
{
    let mut v: Vec<char> = Vec::new();
    for c in it: s.chars()
        invariant
            v@ == it.seq().take(it.index() as int),
            it.seq() == s@,
    {
        v.push(c);
    }
    proof {
        assert(v@ =~= s@);
    }
    v
}

/// Builds a string out of a slice of characters.
pub fn string_from_chars(v: &[char]) -> (s: String)
    ensures
        s@ == v@,
{
    let mut s = String::new();
    let mut i: usize = 0;
    while i < v.len()
        invariant
            0 <= i <= v.len(),
            s@ == v@.take(i as int),
        decreases v.len() - i,
    {
        push_char(&mut s, v[i]);
        i = i + 1;
        proof {
            assert(s@ =~= v@.take(i as int));
        }
    }
    proof {
        assert(s@ =~= v@);
    }
    s
}

/// Compares two string slices for equality of their character sequences.
pub fn str_eq(a: &str, b: &str) -> (r: bool)
    ensures
        r == (a@ == b@),
{
    let va = chars_vec(a);
    let vb = chars_vec(b);
    chars_eq(va.as_slice(), vb.as_slice())
}

/// Compares two character slices for equality.
pub fn chars_eq(a: &[char], b: &[char]) -> (r: bool)
    ensures
        r == (a@ == b@),
{
    if a.len() != b.len() {
        return false;
    }
    let mut i: usize = 0;
    while i < a.len()
        invariant
            0 <= i <= a.len(),
            a.len() == b.len(),
            forall|j: int| 0 <= j < i ==> a@[j] == b@[j],
        decreases a.len() - i,
    {
        if a[i] != b[i] {
            return false;
        }
        i = i + 1;
    }
    proof {
        assert(a@ =~= b@);
    }
    true
}

/// Clones an optional string, keeping its value.
pub fn clone_opt_string(o: &Option<String>) -> (r: Option<String>)
    ensures
        r == *o,
{
    match o {
        Some(s) => Some(s.clone()),
        None => None,
    }
}

/// The needle occurs in the haystack at position `i`.
pub open spec fn is_sub_at(hay: Seq<char>, needle: Seq<char>, i: int) -> bool {
    0 <= i && i + needle.len() <= hay.len() && hay.subrange(i, i + needle.len() as int) == needle
}

/// The needle occurs somewhere in the haystack.
pub open spec fn has_sub(hay: Seq<char>, needle: Seq<char>) -> bool {
    exists|i: int| is_sub_at(hay, needle, i)
}

/// Finds the first occurrence of `needle` in `hay`, if any.
pub fn find_sub(hay: &[char], needle: &[char]) -> (r: Option<usize>)
    ensures
        match r {
            Some(i) => is_sub_at(hay@, needle@, i as int) && (forall|j: int|
                0 <= j < i ==> !is_sub_at(hay@, needle@, j)),
            None => !has_sub(hay@, needle@),
        },
{
    if needle.len() > hay.len() {
        proof {
            assert(forall|i: int| !is_sub_at(hay@, needle@, i));
        }
        return None;
    }
    let last_start = hay.len() - needle.len();
    let mut i: usize = 0;
    loop
        invariant
            0 <= i <= last_start + 1,
            needle.len() <= hay.len(),
            last_start == hay.len() - needle.len(),
            forall|j: int| 0 <= j < i ==> !is_sub_at(hay@, needle@, j),
        decreases last_start + 1 - i,
    {
        if i > last_start {
            proof {
                assert(forall|j: int|
                    is_sub_at(hay@, needle@, j) ==> 0 <= j <= last_start as int);
            }
            return None;
        }
        let piece = vstd::slice::slice_subrange(hay, i, i + needle.len());
        if chars_eq(piece, needle) {
            return Some(i);
        }
        if i == last_start {
            proof {
                assert(forall|j: int|
                    is_sub_at(hay@, needle@, j) ==> 0 <= j <= last_start as int);
            }
            return None;
        }
        i = i + 1;
    }
}

/// The first position at or after `i` where `needle` occurs in `hay`.
pub open spec fn spec_find_from(hay: Seq<char>, needle: Seq<char>, i: int) -> Option<int>
    decreases hay.len() - i + 1,
{
    if i < 0 || i + needle.len() > hay.len() {
        None
    } else if is_sub_at(hay, needle, i) {
        Some(i)
    } else {
        spec_find_from(hay, needle, i + 1)
    }
}

/// The first position where `needle` occurs in `hay`, as `str::find`
/// reports it.
pub open spec fn spec_find(hay: Seq<char>, needle: Seq<char>) -> Option<int> {
    spec_find_from(hay, needle, 0)
}

proof fn lemma_spec_find_from(hay: Seq<char>, needle: Seq<char>, i: int)
    requires
        0 <= i,
    ensures
        match spec_find_from(hay, needle, i) {
            Some(k) => i <= k && is_sub_at(hay, needle, k) && (forall|j: int|
                i <= j < k ==> !is_sub_at(hay, needle, j)),
            None => forall|j: int| i <= j ==> !is_sub_at(hay, needle, j),
        },
    decreases hay.len() - i + 1,
{
    if !(i + needle.len() > hay.len()) && !is_sub_at(hay, needle, i) {
        lemma_spec_find_from(hay, needle, i + 1);
    }
}

/// Finds the first occurrence of `needle` in `hay`, reported against
/// [`spec_find`].
pub fn find_index(hay: &[char], needle: &[char]) -> (r: Option<usize>)
    ensures
        match r {
            Some(i) => spec_find(hay@, needle@) == Some(i as int) && is_sub_at(
                hay@,
                needle@,
                i as int,
            ),
            None => spec_find(hay@, needle@) is None,
        },
{
    proof {
        lemma_spec_find_from(hay@, needle@, 0);
    }
    let r = find_sub(hay, needle);
    proof {
        match r {
            Some(i) => {
                match spec_find(hay@, needle@) {
                    Some(k) => {
                        if k < i as int {
                            assert(!is_sub_at(hay@, needle@, k));
                        } else if k > i as int {
                            assert(!is_sub_at(hay@, needle@, i as int));
                        }
                    },
                    None => {
                        assert(!is_sub_at(hay@, needle@, i as int));
                    },
                }
            },
            None => {
                match spec_find(hay@, needle@) {
                    Some(k) => {
                        assert(is_sub_at(hay@, needle@, k));
                        assert(has_sub(hay@, needle@));
                    },
                    None => {},
                }
            },
        }
    }
    r
}

/// Whether `needle` occurs in `hay`.
pub fn contains_sub(hay: &[char], needle: &[char]) -> (r: bool)
    ensures
        r == has_sub(hay@, needle@),
{
    find_sub(hay, needle).is_some()
}

/// Whether `s` begins with `prefix`.
pub open spec fn spec_starts_with(s: Seq<char>, prefix: Seq<char>) -> bool {
    is_sub_at(s, prefix, 0)
}

/// Whether `s` ends with `suffix`.
pub open spec fn spec_ends_with(s: Seq<char>, suffix: Seq<char>) -> bool {
    is_sub_at(s, suffix, s.len() - suffix.len())
}

pub fn starts_with(s: &[char], prefix: &[char]) -> (r: bool)
    ensures
        r == spec_starts_with(s@, prefix@),
{
    if prefix.len() > s.len() {
        return false;
    }
    let piece = vstd::slice::slice_subrange(s, 0, prefix.len());
    chars_eq(piece, prefix)
}

pub fn ends_with(s: &[char], suffix: &[char]) -> (r: bool)
    ensures
        r == spec_ends_with(s@, suffix@),
{
    if suffix.len() > s.len() {
        return false;
    }
    let piece = vstd::slice::slice_subrange(s, s.len() - suffix.len(), s.len());
    chars_eq(piece, suffix)
}

/// Finds the first occurrence of the character `c` in `v`.
pub fn find_char(v: &[char], c: char) -> (r: Option<usize>)
    ensures
        match r {
            Some(i) => i < v@.len() && v@[i as int] == c && (forall|j: int|
                0 <= j < i ==> v@[j] != c),
            None => forall|j: int| 0 <= j < v@.len() ==> v@[j] != c,
        },
{
    let mut i: usize = 0;
    while i < v.len()
        invariant
            0 <= i <= v.len(),
            forall|j: int| 0 <= j < i ==> v@[j] != c,
        decreases v.len() - i,
    {
        if v[i] == c {
            return Some(i);
        }
        i = i + 1;
    }
    None
}

/// The first position at or after `i` where `c` occurs in `s`.
pub open spec fn spec_find_char_from(s: Seq<char>, c: char, i: int) -> Option<int>
    decreases s.len() - i + 1,
{
    if i < 0 || i >= s.len() {
        None
    } else if s[i] == c {
        Some(i)
    } else {
        spec_find_char_from(s, c, i + 1)
    }
}

/// The first position of `c` in `s`, as `str::find` reports for a
/// character pattern.
pub open spec fn spec_find_char(s: Seq<char>, c: char) -> Option<int> {
    spec_find_char_from(s, c, 0)
}

proof fn lemma_spec_find_char_from(s: Seq<char>, c: char, i: int)
    requires
        0 <= i,
    ensures
        match spec_find_char_from(s, c, i) {
            Some(k) => i <= k < s.len() && s[k] == c && (forall|j: int| i <= j < k ==> s[j] != c),
            None => forall|j: int| i <= j < s.len() ==> s[j] != c,
        },
    decreases s.len() - i + 1,
{
    if i < s.len() && s[i] != c {
        lemma_spec_find_char_from(s, c, i + 1);
    }
}

/// Finds the first occurrence of `c` in `v`, reported against
/// [`spec_find_char`].
pub fn find_char_index(v: &[char], c: char) -> (r: Option<usize>)
    ensures
        match r {
            Some(i) => spec_find_char(v@, c) == Some(i as int) && i < v@.len(),
            None => spec_find_char(v@, c) is None,
        },
{
    proof {
        lemma_spec_find_char_from(v@, c, 0);
    }
    let r = find_char(v, c);
    proof {
        match r {
            Some(i) => {
                match spec_find_char(v@, c) {
                    Some(k) => {
                        if k < i as int {
                            assert(v@[k] != c);
                        } else if k > i as int {
                            assert(v@[i as int] != c);
                        }
                    },
                    None => {
                        assert(v@[i as int] != c);
                    },
                }
            },
            None => {
                match spec_find_char(v@, c) {
                    Some(k) => {
                        assert(v@[k] == c);
                    },
                    None => {},
                }
            },
        }
    }
    r
}

/// Removes every leading occurrence of `c`.
pub fn trim_start_char(v: &[char], c: char) -> (r: Vec<char>)
    ensures
        r@ == spec_trim_start_char(v@, c),
{
    let n = v.len();
    let mut lo: usize = 0;
    while lo < n && v[lo] == c
        invariant
            0 <= lo <= n,
            n == v@.len(),
            forall|j: int| 0 <= j < lo ==> v@[j] == c,
        decreases n - lo,
    {
        lo = lo + 1;
    }
    proof {
        lemma_trim_start_char_skip(v@, c, lo as int);
        if lo < n {
            assert(spec_trim_start_char(v@.skip(lo as int), c) == v@.skip(lo as int));
        } else {
            assert(v@.skip(lo as int) =~= Seq::<char>::empty());
        }
    }
    vstd::slice::slice_to_vec(vstd::slice::slice_subrange(v, lo, n))
}

/// What `char::is_whitespace` holds of a character; the result depends on
/// the character alone.
pub uninterp spec fn is_unicode_ws(c: char) -> bool;

/// Relies on `char::is_whitespace`: the Unicode white-space property. The
/// ASCII blank characters have it; printable ASCII beyond the space does
/// not.
#[verifier::external_body]
pub fn char_is_ws(c: char) -> (r: bool)
    ensures
        r == is_unicode_ws(c),
        (c == ' ' || c == '\t' || c == '\n' || c == '\r') ==> r,
        ('!' <= c && c <= '~') ==> !r,
{
    c.is_whitespace()
}

/// What `str::to_lowercase` returns; the result depends on the characters
/// alone.
pub uninterp spec fn lower_of(s: Seq<char>) -> Seq<char>;

/// Relies on `str::to_lowercase`: the Unicode lowercase mapping of the
/// string, which is empty exactly when the input is empty.
#[verifier::external_body]
pub fn to_lowercase(s: &str) -> (r: String)
    ensures
        r@ == lower_of(s@),
        s@.len() == 0 ==> r@.len() == 0,
{
    s.to_lowercase()
}

/// Splitting `s` at `sep` after having already read the partial piece
/// `cur`: every separator ends a piece, and the final piece is what is
/// left when the input ends.
pub open spec fn spec_split_acc(s: Seq<char>, sep: char, cur: Seq<char>) -> Seq<Seq<char>>
    decreases s.len(),
{
    if s.len() == 0 {
        seq![cur]
    } else if s[0] == sep {
        seq![cur] + spec_split_acc(s.drop_first(), sep, Seq::empty())
    } else {
        spec_split_acc(s.drop_first(), sep, cur.push(s[0]))
    }
}

/// The pieces of `s` between occurrences of `sep`, empty pieces kept.
pub open spec fn spec_split(s: Seq<char>, sep: char) -> Seq<Seq<char>> {
    spec_split_acc(s, sep, Seq::empty())
}

/// The views of a sequence of character vectors.
pub open spec fn views_of(v: Seq<Vec<char>>) -> Seq<Seq<char>> {
    v.map_values(|p: Vec<char>| p@)
}

/// Splits `s` at every occurrence of `sep`, keeping empty pieces.
pub fn split_char_vecs(s: &[char], sep: char) -> (r: Vec<Vec<char>>)
    ensures
        views_of(r@) == spec_split(s@, sep),
{
    let mut done: Vec<Vec<char>> = Vec::new();
    let mut cur: Vec<char> = Vec::new();
    let mut i: usize = 0;
    proof {
        assert(s@.skip(0) =~= s@);
        assert(views_of(done@) + spec_split_acc(s@, sep, cur@) =~= spec_split(s@, sep));
    }
    while i < s.len()
        invariant
            0 <= i <= s.len(),
            spec_split(s@, sep) == views_of(done@) + spec_split_acc(
                s@.skip(i as int),
                sep,
                cur@,
            ),
        decreases s.len() - i,
    {
        proof {
            assert(s@.skip(i as int).drop_first() =~= s@.skip(i as int + 1));
            assert(s@.skip(i as int)[0] == s@[i as int]);
        }
        if s[i] == sep {
            let ghost old_done = done@;
            done.push(cur);
            cur = Vec::new();
            proof {
                assert(views_of(done@) =~= views_of(old_done).push(done@.last()@));
                assert(spec_split(s@, sep) =~= views_of(done@) + spec_split_acc(
                    s@.skip(i as int + 1),
                    sep,
                    cur@,
                ));
            }
        } else {
            cur.push(s[i]);
        }
        i = i + 1;
    }
    proof {
        assert(s@.skip(i as int) =~= Seq::<char>::empty());
        assert(spec_split_acc(s@.skip(i as int), sep, cur@) == seq![cur@]);
    }
    let ghost old_done = done@;
    done.push(cur);
    proof {
        assert(views_of(done@) =~= views_of(old_done).push(done@.last()@));
        assert(views_of(done@) =~= spec_split(s@, sep));
    }
    done
}

/// Splits `s` at every occurrence of `sep` into strings.
pub fn split_char(s: &[char], sep: char) -> (r: Vec<String>)
    ensures
        r@.len() == spec_split(s@, sep).len(),
        forall|i: int| 0 <= i < r@.len() ==> r@[i]@ == spec_split(s@, sep)[i],
{
    let pieces = split_char_vecs(s, sep);
    let mut r: Vec<String> = Vec::new();
    let mut i: usize = 0;
    while i < pieces.len()
        invariant
            0 <= i <= pieces.len(),
            views_of(pieces@) == spec_split(s@, sep),
            r@.len() == i,
            forall|j: int| 0 <= j < i ==> r@[j]@ == spec_split(s@, sep)[j],
        decreases pieces.len() - i,
    {
        r.push(string_from_chars(pieces[i].as_slice()));
        i = i + 1;
    }
    r
}

/// Splits `s` at the first occurrence of `sep`, if there is one.
pub fn split_first(s: &[char], sep: char) -> (r: Option<(Vec<char>, Vec<char>)>)
    ensures
        match r {
            Some(p) => exists|k: int|
                0 <= k < s@.len() && s@[k] == sep && (forall|j: int| 0 <= j < k ==> s@[j] != sep)
                    && p.0@ == s@.take(k) && p.1@ == s@.skip(k + 1),
            None => forall|j: int| 0 <= j < s@.len() ==> s@[j] != sep,
        },
{
    let n = s.len();
    match find_char(s, sep) {
        Some(k) => {
            let before = vstd::slice::slice_to_vec(vstd::slice::slice_subrange(s, 0, k));
            let after = vstd::slice::slice_to_vec(vstd::slice::slice_subrange(s, k + 1, n));
            proof {
                assert(before@ =~= s@.take(k as int));
                assert(after@ =~= s@.skip(k as int + 1));
            }
            Some((before, after))
        },
        None => None,
    }
}

/// Splitting `s` at white space with the partial token `cur` already read:
/// tokens are maximal runs of non-white-space characters, and no empty
/// token is produced.
pub open spec fn spec_split_ws_acc(s: Seq<char>, cur: Seq<char>) -> Seq<Seq<char>>
    decreases s.len(),
{
    if s.len() == 0 {
        if cur.len() == 0 {
            Seq::empty()
        } else {
            seq![cur]
        }
    } else if is_unicode_ws(s[0]) {
        if cur.len() == 0 {
            spec_split_ws_acc(s.drop_first(), Seq::empty())
        } else {
            seq![cur] + spec_split_ws_acc(s.drop_first(), Seq::empty())
        }
    } else {
        spec_split_ws_acc(s.drop_first(), cur.push(s[0]))
    }
}

/// The white-space separated tokens of `s`.
pub open spec fn spec_split_ws(s: Seq<char>) -> Seq<Seq<char>> {
    spec_split_ws_acc(s, Seq::empty())
}

/// Splits `s` into white-space separated tokens.
pub fn split_ws(s: &[char]) -> (r: Vec<Vec<char>>)
    ensures
        views_of(r@) == spec_split_ws(s@),
{
    let mut done: Vec<Vec<char>> = Vec::new();
    let mut cur: Vec<char> = Vec::new();
    let mut i: usize = 0;
    proof {
        assert(s@.skip(0) =~= s@);
        assert(views_of(done@) + spec_split_ws_acc(s@, cur@) =~= spec_split_ws(s@));
    }
    while i < s.len()
        invariant
            0 <= i <= s.len(),
            spec_split_ws(s@) == views_of(done@) + spec_split_ws_acc(s@.skip(i as int), cur@),
        decreases s.len() - i,
    {
        proof {
            assert(s@.skip(i as int).drop_first() =~= s@.skip(i as int + 1));
            assert(s@.skip(i as int)[0] == s@[i as int]);
        }
        if char_is_ws(s[i]) {
            if cur.len() > 0 {
                let ghost old_done = done@;
                done.push(cur);
                cur = Vec::new();
                proof {
                    assert(views_of(done@) =~= views_of(old_done).push(done@.last()@));
                    assert(spec_split_ws(s@) =~= views_of(done@) + spec_split_ws_acc(
                        s@.skip(i as int + 1),
                        cur@,
                    ));
                }
            } else {
                proof {
                    assert(cur@ =~= Seq::<char>::empty());
                    assert(spec_split_ws_acc(s@.skip(i as int), cur@)
                        == spec_split_ws_acc(s@.skip(i as int + 1), Seq::<char>::empty()));
                    assert(spec_split_ws(s@) =~= views_of(done@) + spec_split_ws_acc(
                        s@.skip(i as int + 1),
                        cur@,
                    ));
                }
            }
        } else {
            cur.push(s[i]);
        }
        i = i + 1;
    }
    proof {
        assert(s@.skip(i as int) =~= Seq::<char>::empty());
    }
    if cur.len() > 0 {
        let ghost old_done = done@;
        done.push(cur);
        proof {
            assert(views_of(done@) =~= views_of(old_done).push(done@.last()@));
        }
    }
    proof {
        assert(views_of(done@) =~= spec_split_ws(s@));
    }
    done
}

/// A piece of a line with one trailing carriage return removed.
pub open spec fn spec_strip_cr(p: Seq<char>) -> Seq<char> {
    if p.len() > 0 && p.last() == '\r' {
        p.drop_last()
    } else {
        p
    }
}

/// The lines of `s`: pieces between newlines, each inner piece with a
/// trailing carriage return removed, and no final empty line.
pub open spec fn spec_lines(s: Seq<char>) -> Seq<Seq<char>> {
    let ps = spec_split(s, '\n');
    let n = ps.len() as int;
    let m = if ps[n - 1].len() == 0 {
        n - 1
    } else {
        n
    };
    Seq::new(m as nat, |i: int| if i < n - 1 {
        spec_strip_cr(ps[i])
    } else {
        ps[i]
    })
}

/// Splits `s` into lines, as `str::lines` does.
pub fn lines_vec(s: &str) -> (r: Vec<String>)
    ensures
        r@.len() == spec_lines(s@).len(),
        forall|i: int| 0 <= i < r@.len() ==> r@[i]@ == spec_lines(s@)[i],
{
    let v = chars_vec(s);
    let mut pieces = split_char_vecs(v.as_slice(), '\n');
    let ghost ps = spec_split(s@, '\n');
    let ghost n = ps.len() as int;
    proof {
        assert(views_of(pieces@).len() == ps.len());
        assert(ps.len() >= 1) by {
            lemma_split_len(s@, '\n');
        }
    }
    let mut popped = false;
    if pieces[pieces.len() - 1].len() == 0 {
        pieces.pop();
        popped = true;
    }
    let mut r: Vec<String> = Vec::new();
    let mut i: usize = 0;
    while i < pieces.len()
        invariant
            0 <= i <= pieces.len(),
            pieces@.len() == spec_lines(s@).len(),
            popped ==> pieces@.len() == n - 1,
            !popped ==> pieces@.len() == n,
            forall|j: int| 0 <= j < pieces@.len() && j < n - 1 ==> pieces@[j]@ == ps[j],
            forall|j: int| 0 <= j < pieces@.len() && j == n - 1 ==> pieces@[j]@ == ps[j],
            spec_lines(s@) == Seq::new(
                pieces@.len(),
                |j: int| if j < n - 1 {
                    spec_strip_cr(ps[j])
                } else {
                    ps[j]
                },
            ),
            r@.len() == i,
            forall|j: int| 0 <= j < i ==> r@[j]@ == spec_lines(s@)[j],
        decreases pieces.len() - i,
    {
        let mut piece = pieces[i].clone();
        if i + 1 < pieces.len() || popped {
            if piece.len() > 0 && piece[piece.len() - 1] == '\r' {
                piece.pop();
            }
        }
        r.push(string_from_chars(piece.as_slice()));
        i = i + 1;
    }
    r
}

/// A split always yields at least one piece.
pub proof fn lemma_split_len(s: Seq<char>, sep: char)
    ensures
        spec_split(s, sep).len() >= 1,
{
    lemma_split_acc_len(s, sep, Seq::empty());
}

proof fn lemma_split_acc_len(s: Seq<char>, sep: char, cur: Seq<char>)
    ensures
        spec_split_acc(s, sep, cur).len() >= 1,
    decreases s.len(),
{
    if s.len() > 0 {
        if s[0] == sep {
            lemma_split_acc_len(s.drop_first(), sep, Seq::empty());
        } else {
            lemma_split_acc_len(s.drop_first(), sep, cur.push(s[0]));
        }
    }
}

/// `s` with leading white space removed.
pub open spec fn spec_trim_start(s: Seq<char>) -> Seq<char>
    decreases s.len(),
{
    if s.len() > 0 && is_unicode_ws(s[0]) {
        spec_trim_start(s.drop_first())
    } else {
        s
    }
}

/// `s` with trailing white space removed.
pub open spec fn spec_trim_end(s: Seq<char>) -> Seq<char>
    decreases s.len(),
{
    if s.len() > 0 && is_unicode_ws(s.last()) {
        spec_trim_end(s.drop_last())
    } else {
        s
    }
}

/// `s` with leading and trailing white space removed.
pub open spec fn spec_trim(s: Seq<char>) -> Seq<char> {
    spec_trim_end(spec_trim_start(s))
}

proof fn lemma_trim_start_skip(s: Seq<char>, k: int)
    requires
        0 <= k <= s.len(),
        forall|j: int| 0 <= j < k ==> is_unicode_ws(s[j]),
    ensures
        spec_trim_start(s) == spec_trim_start(s.skip(k)),
    decreases k,
{
    if k == 0 {
        assert(s.skip(0) =~= s);
    } else {
        assert(s.drop_first() =~= s.skip(1));
        lemma_trim_start_skip(s.skip(1), k - 1);
        assert(s.skip(1).skip(k - 1) =~= s.skip(k));
    }
}

proof fn lemma_trim_end_take(s: Seq<char>, k: int)
    requires
        0 <= k <= s.len(),
        forall|j: int| k <= j < s.len() ==> is_unicode_ws(s[j]),
    ensures
        spec_trim_end(s) == spec_trim_end(s.take(k)),
    decreases s.len() - k,
{
    if k == s.len() {
        assert(s.take(k) =~= s);
    } else {
        assert(s.drop_last() =~= s.take(s.len() - 1));
        lemma_trim_end_take(s.take(s.len() - 1), k);
        assert(s.take(s.len() - 1).take(k) =~= s.take(k));
    }
}

/// Removes leading and trailing white space, as `str::trim` does.
pub fn trim_chars(v: &[char]) -> (r: Vec<char>)
    ensures
        r@ == spec_trim(v@),
{
    let n = v.len();
    let mut lo: usize = 0;
    while lo < n && char_is_ws(v[lo])
        invariant
            0 <= lo <= n,
            n == v@.len(),
            forall|j: int| 0 <= j < lo ==> is_unicode_ws(v@[j]),
        decreases n - lo,
    {
        lo = lo + 1;
    }
    proof {
        lemma_trim_start_skip(v@, lo as int);
    }
    if lo == n {
        proof {
            assert(v@.skip(lo as int) =~= Seq::<char>::empty());
        }
        return Vec::new();
    }
    let mut hi: usize = n;
    while hi > lo && char_is_ws(v[hi - 1])
        invariant
            lo <= hi <= n,
            n == v@.len(),
            forall|j: int| hi <= j < n ==> is_unicode_ws(v@[j]),
        decreases hi,
    {
        hi = hi - 1;
    }
    let ghost tail = v@.skip(lo as int);
    proof {
        // trailing white space of the suffix is trailing white space of v
        lemma_trim_end_take(tail, hi - lo);
        assert(tail.take(hi - lo) =~= v@.subrange(lo as int, hi as int));
        if hi > lo {
            assert(!is_unicode_ws(v@[lo as int]));
            assert(!is_unicode_ws(v@[hi - 1]));
            assert(spec_trim_end(v@.subrange(lo as int, hi as int))
                == v@.subrange(lo as int, hi as int));
        } else {
            assert(v@.subrange(lo as int, hi as int) =~= Seq::<char>::empty());
        }
    }
    let piece = vstd::slice::slice_subrange(v, lo, hi);
    vstd::slice::slice_to_vec(piece)
}

/// Removes leading and trailing white space from a string.
pub fn trim_str(s: &str) -> (r: String)
    ensures
        r@ == spec_trim(s@),
{
    let v = chars_vec(s);
    let t = trim_chars(v.as_slice());
    string_from_chars(t.as_slice())
}

/// `s` with every trailing occurrence of `c` removed.
pub open spec fn spec_trim_end_char(s: Seq<char>, c: char) -> Seq<char>
    decreases s.len(),
{
    if s.len() > 0 && s.last() == c {
        spec_trim_end_char(s.drop_last(), c)
    } else {
        s
    }
}

/// `s` with every leading occurrence of `c` removed.
pub open spec fn spec_trim_start_char(s: Seq<char>, c: char) -> Seq<char>
    decreases s.len(),
{
    if s.len() > 0 && s[0] == c {
        spec_trim_start_char(s.drop_first(), c)
    } else {
        s
    }
}

/// `s` with leading and trailing occurrences of `c` removed, as
/// `str::trim_matches` does for a character pattern.
pub open spec fn spec_trim_char(s: Seq<char>, c: char) -> Seq<char> {
    spec_trim_end_char(spec_trim_start_char(s, c), c)
}

proof fn lemma_trim_start_char_skip(s: Seq<char>, c: char, k: int)
    requires
        0 <= k <= s.len(),
        forall|j: int| 0 <= j < k ==> s[j] == c,
    ensures
        spec_trim_start_char(s, c) == spec_trim_start_char(s.skip(k), c),
    decreases k,
{
    if k == 0 {
        assert(s.skip(0) =~= s);
    } else {
        assert(s.drop_first() =~= s.skip(1));
        lemma_trim_start_char_skip(s.skip(1), c, k - 1);
        assert(s.skip(1).skip(k - 1) =~= s.skip(k));
    }
}

proof fn lemma_trim_end_char_take(s: Seq<char>, c: char, k: int)
    requires
        0 <= k <= s.len(),
        forall|j: int| k <= j < s.len() ==> s[j] == c,
    ensures
        spec_trim_end_char(s, c) == spec_trim_end_char(s.take(k), c),
    decreases s.len() - k,
{
    if k == s.len() {
        assert(s.take(k) =~= s);
    } else {
        assert(s.drop_last() =~= s.take(s.len() - 1));
        lemma_trim_end_char_take(s.take(s.len() - 1), c, k);
        assert(s.take(s.len() - 1).take(k) =~= s.take(k));
    }
}

/// Removes every trailing occurrence of `c`, as `str::trim_end_matches`
/// does for a character pattern.
pub fn trim_end_char(v: &[char], c: char) -> (r: Vec<char>)
    ensures
        r@ == spec_trim_end_char(v@, c),
{
    let n = v.len();
    let mut hi: usize = n;
    while hi > 0 && v[hi - 1] == c
        invariant
            0 <= hi <= n,
            n == v@.len(),
            forall|j: int| hi <= j < n ==> v@[j] == c,
        decreases hi,
    {
        hi = hi - 1;
    }
    proof {
        lemma_trim_end_char_take(v@, c, hi as int);
        assert(v@.take(hi as int) =~= v@.subrange(0, hi as int));
        if hi > 0 {
            assert(spec_trim_end_char(v@.take(hi as int), c) == v@.take(hi as int));
        } else {
            assert(v@.take(0) =~= Seq::<char>::empty());
        }
    }
    vstd::slice::slice_to_vec(vstd::slice::slice_subrange(v, 0, hi))
}

/// Removes leading and trailing occurrences of `c`.
pub fn trim_char_both(v: &[char], c: char) -> (r: Vec<char>)
    ensures
        r@ == spec_trim_char(v@, c),
{
    let n = v.len();
    let mut lo: usize = 0;
    while lo < n && v[lo] == c
        invariant
            0 <= lo <= n,
            n == v@.len(),
            forall|j: int| 0 <= j < lo ==> v@[j] == c,
        decreases n - lo,
    {
        lo = lo + 1;
    }
    proof {
        lemma_trim_start_char_skip(v@, c, lo as int);
        if lo < n {
            assert(spec_trim_start_char(v@.skip(lo as int), c) == v@.skip(lo as int));
        } else {
            assert(v@.skip(lo as int) =~= Seq::<char>::empty());
        }
    }
    let rest = vstd::slice::slice_subrange(v, lo, n);
    trim_end_char(rest, c)
}

/// `s` with every leading occurrence of the prefix `p` removed, as
/// `str::trim_start_matches` does for a string pattern.
pub open spec fn spec_trim_start_seq(s: Seq<char>, p: Seq<char>) -> Seq<char>
    decreases s.len(),
{
    if p.len() > 0 && s.len() >= p.len() && s.take(p.len() as int) == p {
        spec_trim_start_seq(s.skip(p.len() as int), p)
    } else {
        s
    }
}

/// Removes every leading occurrence of the prefix `p`.
pub fn trim_start_seq(v: &[char], p: &[char]) -> (r: Vec<char>)
    ensures
        r@ == spec_trim_start_seq(v@, p@),
{
    let mut cur = vstd::slice::slice_to_vec(v);
    if p.len() == 0 {
        return cur;
    }
    loop
        invariant
            p@.len() > 0,
            spec_trim_start_seq(v@, p@) == spec_trim_start_seq(cur@, p@),
        decreases cur@.len(),
    {
        if cur.len() >= p.len() && starts_with(cur.as_slice(), p) {
            proof {
                assert(cur@.take(p@.len() as int) =~= cur@.subrange(0, p@.len() as int));
            }
            let next = vstd::slice::slice_to_vec(
                vstd::slice::slice_subrange(cur.as_slice(), p.len(), cur.len()),
            );
            proof {
                assert(next@ =~= cur@.skip(p@.len() as int));
            }
            cur = next;
        } else {
            return cur;
        }
    }
}

/// A decimal digit.
pub open spec fn is_digit(c: char) -> bool {
    '0' <= c && c <= '9'
}

/// The value of one decimal digit.
pub open spec fn digit_val(c: char) -> nat {
    (c as int - '0' as int) as nat
}

/// Every character of `s` is a decimal digit.
pub open spec fn all_digits(s: Seq<char>) -> bool {
    forall|i: int| 0 <= i < s.len() ==> is_digit(s[i])
}

/// The value of a string of decimal digits, most significant first.
pub open spec fn digits_val(s: Seq<char>) -> nat
    decreases s.len(),
{
    if s.len() == 0 {
        0
    } else {
        digits_val(s.drop_last()) * 10 + digit_val(s.last())
    }
}

proof fn lemma_digits_val_take_succ(s: Seq<char>, k: int)
    requires
        0 <= k < s.len(),
    ensures
        digits_val(s.take(k + 1)) == digits_val(s.take(k)) * 10 + digit_val(s[k]),
{
    assert(s.take(k + 1).drop_last() =~= s.take(k));
    assert(s.take(k + 1).last() == s[k]);
}

proof fn lemma_digits_val_mono(s: Seq<char>, k: int)
    requires
        0 <= k <= s.len(),
    ensures
        digits_val(s.take(k)) <= digits_val(s),
    decreases s.len() - k,
{
    if k == s.len() {
        assert(s.take(k) =~= s);
    } else {
        lemma_digits_val_take_succ(s, k);
        lemma_digits_val_mono(s, k + 1);
    }
}

/// What `str::parse::<u32>` returns: an optional plus sign, then at least
/// one digit, and a value within range.
pub open spec fn spec_parse_u32(s: Seq<char>) -> Option<u32> {
    let body = if s.len() > 0 && s[0] == '+' {
        s.drop_first()
    } else {
        s
    };
    if body.len() > 0 && all_digits(body) && digits_val(body) <= u32::MAX {
        Some(digits_val(body) as u32)
    } else {
        None
    }
}

/// Parses an unsigned 32-bit decimal number, as `str::parse::<u32>` does.
pub fn parse_u32(v: &[char]) -> (r: Option<u32>)
    ensures
        r == spec_parse_u32(v@),
{
    let n = v.len();
    let start: usize = if n > 0 && v[0] == '+' {
        1
    } else {
        0
    };
    let ghost body = if v@.len() > 0 && v@[0] == '+' {
        v@.drop_first()
    } else {
        v@
    };
    proof {
        assert(body =~= v@.skip(start as int));
    }
    if start == n {
        return None;
    }
    let mut acc: u64 = 0;
    let mut i: usize = start;
    while i < n
        invariant
            start <= i <= n,
            n == v@.len(),
            start < n,
            if v@.len() > 0 && v@[0] == '+' {
                start == 1
            } else {
                start == 0
            },
            body == (if v@.len() > 0 && v@[0] == '+' {
                v@.drop_first()
            } else {
                v@
            }),
            body == v@.skip(start as int),
            body.len() == n - start,
            forall|j: int| 0 <= j < i - start ==> is_digit(body[j]),
            acc == digits_val(body.take(i - start)),
            acc <= u32::MAX,
        decreases n - i,
    {
        let c = v[i];
        proof {
            assert(body[i - start] == v@[i as int]);
        }
        if c < '0' || c > '9' {
            proof {
                assert(!is_digit(body[i - start]));
            }
            return None;
        }
        let d: u64 = (c as u64) - 48;
        proof {
            assert(d == digit_val(body[i - start])) by {
                assert('0' as int == 48);
            }
            lemma_digits_val_take_succ(body, i - start);
        }
        let next: u64 = acc * 10 + d;
        if next > 0xffff_ffff {
            proof {
                lemma_digits_val_mono(body, i - start + 1);
            }
            return None;
        }
        acc = next;
        i = i + 1;
    }
    proof {
        assert(body.take(n - start) =~= body);
    }
    Some(acc as u32)
}

/// What `str::parse::<i64>` returns: an optional sign, then at least one
/// digit, and a value within range.
pub open spec fn spec_parse_i64(s: Seq<char>) -> Option<i64> {
    let neg = s.len() > 0 && s[0] == '-';
    let body = if s.len() > 0 && (s[0] == '-' || s[0] == '+') {
        s.drop_first()
    } else {
        s
    };
    if body.len() > 0 && all_digits(body) {
        if neg && digits_val(body) <= 0x8000_0000_0000_0000 {
            Some((0 - digits_val(body) as int) as i64)
        } else if !neg && digits_val(body) <= i64::MAX {
            Some(digits_val(body) as i64)
        } else {
            None
        }
    } else {
        None
    }
}

/// Parses a signed 64-bit decimal number, as `str::parse::<i64>` does.
pub fn parse_i64(v: &[char]) -> (r: Option<i64>)
    ensures
        r == spec_parse_i64(v@),
{
    let n = v.len();
    let neg = n > 0 && v[0] == '-';
    let start: usize = if n > 0 && (v[0] == '-' || v[0] == '+') {
        1
    } else {
        0
    };
    let ghost body = if v@.len() > 0 && (v@[0] == '-' || v@[0] == '+') {
        v@.drop_first()
    } else {
        v@
    };
    proof {
        assert(body =~= v@.skip(start as int));
    }
    if start == n {
        return None;
    }
    let bound: u64 = if neg {
        0x8000_0000_0000_0000
    } else {
        0x7fff_ffff_ffff_ffff
    };
    let mut acc: u64 = 0;
    let mut i: usize = start;
    while i < n
        invariant
            start <= i <= n,
            n == v@.len(),
            start < n,
            neg == (v@.len() > 0 && v@[0] == '-'),
            if v@.len() > 0 && (v@[0] == '-' || v@[0] == '+') {
                start == 1
            } else {
                start == 0
            },
            body == (if v@.len() > 0 && (v@[0] == '-' || v@[0] == '+') {
                v@.drop_first()
            } else {
                v@
            }),
            body == v@.skip(start as int),
            body.len() == n - start,
            forall|j: int| 0 <= j < i - start ==> is_digit(body[j]),
            acc == digits_val(body.take(i - start)),
            acc <= bound,
            bound == if neg { 0x8000_0000_0000_0000u64 } else { 0x7fff_ffff_ffff_ffffu64 },
        decreases n - i,
    {
        let c = v[i];
        proof {
            assert(body[i - start] == v@[i as int]);
        }
        if c < '0' || c > '9' {
            proof {
                assert(!is_digit(body[i - start]));
            }
            return None;
        }
        let d: u64 = (c as u64) - 48;
        proof {
            assert(d == digit_val(body[i - start])) by {
                assert('0' as int == 48);
            }
            lemma_digits_val_take_succ(body, i - start);
        }
        if acc > (bound - d) / 10 {
            proof {
                assert(acc * 10 + d > bound) by (nonlinear_arith)
                    requires
                        acc > (bound - d) / 10,
                        d <= bound,
                        bound > 0,
                ;
                lemma_digits_val_mono(body, i - start + 1);
            }
            return None;
        }
        proof {
            assert(acc * 10 + d <= bound) by (nonlinear_arith)
                requires
                    acc <= (bound - d) / 10,
                    d <= 9,
                    bound >= 9,
            ;
        }
        acc = acc * 10 + d;
        i = i + 1;
    }
    proof {
        assert(body.take(n - start) =~= body);
    }
    if neg {
        if acc == 0x8000_0000_0000_0000 {
            Some(i64::MIN)
        } else {
            Some(-(acc as i64))
        }
    } else {
        Some(acc as i64)
    }
}

/// The character of one decimal digit.
pub open spec fn spec_digit_char(d: nat) -> char {
    if d == 0 { '0' }
    else if d == 1 { '1' }
    else if d == 2 { '2' }
    else if d == 3 { '3' }
    else if d == 4 { '4' }
    else if d == 5 { '5' }
    else if d == 6 { '6' }
    else if d == 7 { '7' }
    else if d == 8 { '8' }
    else { '9' }
}

/// The decimal digits of `n`, most significant first.
pub open spec fn spec_u64_dec(n: nat) -> Seq<char>
    decreases n,
{
    if n < 10 {
        seq![spec_digit_char(n)]
    } else {
        spec_u64_dec(n / 10).push(spec_digit_char(n % 10))
    }
}

/// The decimal form of a signed number: a minus sign when negative, then
/// the digits of the magnitude.
pub open spec fn spec_i64_dec(n: int) -> Seq<char> {
    if n >= 0 {
        spec_u64_dec(n as nat)
    } else {
        seq!['-'] + spec_u64_dec((0 - n) as nat)
    }
}

fn digit_char(d: u64) -> (c: char)
    requires
        d < 10,
    ensures
        c == spec_digit_char(d as nat),
{
    if d == 0 { '0' }
    else if d == 1 { '1' }
    else if d == 2 { '2' }
    else if d == 3 { '3' }
    else if d == 4 { '4' }
    else if d == 5 { '5' }
    else if d == 6 { '6' }
    else if d == 7 { '7' }
    else if d == 8 { '8' }
    else { '9' }
}

/// The decimal digits of `n` as characters.
pub fn u64_dec_chars(n: u64) -> (r: Vec<char>)
    ensures
        r@ == spec_u64_dec(n as nat),
{
    let mut rev: Vec<char> = Vec::new();
    let mut m: u64 = n;
    proof {
        assert(rev@.reverse() =~= Seq::<char>::empty());
    }
    while m >= 10
        invariant
            spec_u64_dec(n as nat) == spec_u64_dec(m as nat) + rev@.reverse(),
        decreases m,
    {
        let ghost old_rev = rev@;
        rev.push(digit_char(m % 10));
        proof {
            assert(rev@.reverse() =~= seq![spec_digit_char((m % 10) as nat)]
                + old_rev.reverse());
        }
        m = m / 10;
    }
    let ghost old_rev = rev@;
    rev.push(digit_char(m));
    proof {
        assert(rev@.reverse() =~= seq![spec_digit_char(m as nat)] + old_rev.reverse());
        assert(spec_u64_dec(m as nat) == seq![spec_digit_char(m as nat)]);
        assert(rev@.reverse() =~= spec_u64_dec(n as nat));
    }
    let mut out: Vec<char> = Vec::new();
    let len = rev.len();
    let mut i: usize = 0;
    while i < len
        invariant
            0 <= i <= len,
            len == rev@.len(),
            out@.len() == i,
            forall|j: int| 0 <= j < i ==> out@[j] == rev@[len - 1 - j],
        decreases len - i,
    {
        out.push(rev[len - 1 - i]);
        i = i + 1;
    }
    proof {
        assert(out@ =~= rev@.reverse());
    }
    out
}

/// The decimal form of an unsigned number, as `u64` formats itself.
pub fn u64_to_string(n: u64) -> (r: String)
    ensures
        r@ == spec_u64_dec(n as nat),
{
    let v = u64_dec_chars(n);
    string_from_chars(v.as_slice())
}

/// The decimal form of an unsigned number, as `u32` formats itself.
pub fn u32_to_string(n: u32) -> (r: String)
    ensures
        r@ == spec_u64_dec(n as nat),
{
    u64_to_string(n as u64)
}

/// The decimal form of a signed number, as `i64` formats itself.
pub fn i64_to_string(n: i64) -> (r: String)
    ensures
        r@ == spec_i64_dec(n as int),
{
    if n >= 0 {
        u64_to_string(n as u64)
    } else {
        let mag: u64 = if n == i64::MIN {
            0x8000_0000_0000_0000
        } else {
            (-n) as u64
        };
        let digits = u64_dec_chars(mag);
        let mut v: Vec<char> = Vec::new();
        v.push('-');
        let mut i: usize = 0;
        while i < digits.len()
            invariant
                0 <= i <= digits@.len(),
                v@ == seq!['-'] + digits@.take(i as int),
            decreases digits@.len() - i,
        {
            v.push(digits[i]);
            i = i + 1;
            proof {
                assert(v@ =~= seq!['-'] + digits@.take(i as int));
            }
        }
        proof {
            assert(digits@.take(digits@.len() as int) =~= digits@);
            assert(v@ =~= spec_i64_dec(n as int));
        }
        string_from_chars(v.as_slice())
    }
}

} // verus!
