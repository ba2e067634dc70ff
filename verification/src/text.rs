//! Character-level string utilities.
//!
//! The library's logic works on `Vec<char>` values, whose views are
//! `Seq<char>`; these helpers bridge to and from `String` and provide the
//! small amount of searching, splitting, and joining the rest of the crate
//! needs.

use vstd::prelude::*;

verus! {

/// Relies on `String::push` from std: appends exactly one character.
pub assume_specification[ String::push ](s: &mut String, c: char)
    ensures
        final(s)@ == old(s)@.push(c),
;

/// Copies the characters of a string slice into a vector.
pub fn str_to_chars(s: &str) -> (r: Vec<char>)
    ensures
        r@ == s@,
{
    let n = s.unicode_len();
    let mut r: Vec<char> = Vec::new();
    let mut i: usize = 0;
    while i < n
        invariant
            n == s@.len(),
            i <= n,
            r@ == s@.subrange(0, i as int),
        decreases n - i,
    {
        r.push(s.get_char(i));
        i = i + 1;
    }
    assert(r@ =~= s@);
    r
}

/// Builds a `String` from a vector of characters.
pub fn chars_to_string(v: &Vec<char>) -> (r: String)
    ensures
        r@ == v@,
{
    let mut r = String::new();
    let mut i: usize = 0;
    while i < v.len()
        invariant
            i <= v@.len(),
            r@ == v@.subrange(0, i as int),
        decreases v@.len() - i,
    {
        r.push(v[i]);
        i = i + 1;
    }
    assert(r@ =~= v@);
    r
}

/// Compares two character vectors for equality of their contents.
pub fn chars_eq(a: &Vec<char>, b: &Vec<char>) -> (r: bool)
    ensures
        r == (a@ == b@),
{
    if a.len() != b.len() {
        assert(a@ != b@);
        return false;
    }
    let mut i: usize = 0;
    while i < a.len()
        invariant
            a@.len() == b@.len(),
            i <= a@.len(),
            forall|k: int| 0 <= k < i ==> a@[k] == b@[k],
        decreases a@.len() - i,
    {
        if a[i] != b[i] {
            return false;
        }
        i = i + 1;
    }
    assert(a@ =~= b@);
    true
}

/// Compares a string's characters with a character vector.
pub fn str_eq_chars(s: &str, v: &Vec<char>) -> (r: bool)
    ensures
        r == (s@ == v@),
{
    let sc = str_to_chars(s);
    chars_eq(&sc, v)
}

/// Appends every character of `src` to `out`.
pub fn append_chars(out: &mut Vec<char>, src: &Vec<char>)
    ensures
        final(out)@ == old(out)@ + src@,
{
    let mut i: usize = 0;
    while i < src.len()
        invariant
            i <= src@.len(),
            out@ == old(out)@ + src@.subrange(0, i as int),
        decreases src@.len() - i,
    {
        assert(old(out)@ + src@.subrange(0, i + 1) =~= (old(out)@ + src@.subrange(
            0,
            i as int,
        )).push(src@[i as int]));
        out.push(src[i]);
        i = i + 1;
    }
    assert(old(out)@ + src@.subrange(0, src@.len() as int) =~= old(out)@ + src@);
}

/// Appends every character of the string slice `src` to `out`.
pub fn append_str_chars(out: &mut Vec<char>, src: &str)
    ensures
        final(out)@ == old(out)@ + src@,
{
    let sc = str_to_chars(src);
    append_chars(out, &sc);
}

/// The position of the first occurrence of `c` in `s` at or after `from`.
pub open spec fn spec_find_char(s: Seq<char>, c: char, from: nat) -> Option<nat>
    decreases s.len() - from,
{
    if from >= s.len() {
        None
    } else if s[from as int] == c {
        Some(from)
    } else {
        spec_find_char(s, c, from + 1)
    }
}

/// Scans `s` for the first occurrence of `c` at or after index `from`.
pub fn find_char(s: &Vec<char>, c: char, from: usize) -> (r: Option<usize>)
    ensures
        match r {
            Some(j) => spec_find_char(s@, c, from as nat) == Some(j as nat),
            None => spec_find_char(s@, c, from as nat) == None::<nat>,
        },
{
    let mut i: usize = from;
    while i < s.len()
        invariant
            from <= i,
            i <= s@.len() || from >= s@.len(),
            spec_find_char(s@, c, from as nat) == spec_find_char(s@, c, i as nat),
        decreases s@.len() - i,
    {
        if s[i] == c {
            return Some(i);
        }
        i = i + 1;
    }
    None
}

/// Every occurrence of `from` in `s` replaced by `to`.
pub open spec fn spec_replace_char(s: Seq<char>, from: char, to: char) -> Seq<char> {
    s.map_values(|c: char| if c == from { to } else { c })
}

/// Replaces every occurrence of the character `from` with `to`.
pub fn replace_char(s: &Vec<char>, from: char, to: char) -> (r: Vec<char>)
    ensures
        r@ == spec_replace_char(s@, from, to),
{
    let mut r: Vec<char> = Vec::new();
    let mut i: usize = 0;
    while i < s.len()
        invariant
            i <= s@.len(),
            r@ == spec_replace_char(s@.subrange(0, i as int), from, to),
        decreases s@.len() - i,
    {
        let c = s[i];
        assert(spec_replace_char(s@.subrange(0, i + 1), from, to) =~= spec_replace_char(
            s@.subrange(0, i as int),
            from,
            to,
        ).push(if c == from { to } else { c }));
        if c == from {
            r.push(to);
        } else {
            r.push(c);
        }
        i = i + 1;
    }
    assert(s@.subrange(0, s@.len() as int) =~= s@);
    r
}

/// Whether `s` ends with the suffix `suffix`.
pub open spec fn spec_ends_with(s: Seq<char>, suffix: Seq<char>) -> bool {
    s.len() >= suffix.len() && s.subrange(s.len() - suffix.len(), s.len() as int) == suffix
}

/// Whether the character vector `s` ends with the characters of `suffix`.
pub fn ends_with(s: &Vec<char>, suffix: &Vec<char>) -> (r: bool)
    ensures
        r == spec_ends_with(s@, suffix@),
{
    if s.len() < suffix.len() {
        return false;
    }
    let n = s.len();
    let m = suffix.len();
    let off = n - m;
    let mut i: usize = 0;
    while i < m
        invariant
            n == s@.len(),
            m == suffix@.len(),
            m <= n,
            off == n - m,
            i <= m,
            forall|k: int| 0 <= k < i ==> s@[off + k] == suffix@[k],
        decreases m - i,
    {
        if s[off + i] != suffix[i] {
            assert(s@.subrange(s@.len() - suffix@.len(), s@.len() as int)[i as int]
                != suffix@[i as int]);
            return false;
        }
        i = i + 1;
    }
    assert(s@.subrange(s@.len() - suffix@.len(), s@.len() as int) =~= suffix@);
    true
}

/// The characters of `s` from `from` (inclusive) to `to` (exclusive).
pub fn subrange_chars(s: &Vec<char>, from: usize, to: usize) -> (r: Vec<char>)
    requires
        from <= to <= s@.len(),
    ensures
        r@ == s@.subrange(from as int, to as int),
{
    let mut r: Vec<char> = Vec::new();
    let mut i: usize = from;
    while i < to
        invariant
            from <= i <= to <= s@.len(),
            r@ == s@.subrange(from as int, i as int),
        decreases to - i,
    {
        assert(s@.subrange(from as int, i + 1) =~= s@.subrange(from as int, i as int).push(
            s@[i as int],
        ));
        r.push(s[i]);
        i = i + 1;
    }
    r
}

/// The parts of `s` between occurrences of the separator `sep`, in order.
pub open spec fn spec_split_char(s: Seq<char>, sep: char) -> Seq<Seq<char>>
    decreases s.len(),
{
    match spec_find_char(s, sep, 0) {
        Some(j) => if j < s.len() {
            seq![s.subrange(0, j as int)] + spec_split_char(
                s.subrange(j as int + 1, s.len() as int),
                sep,
            )
        } else {
            seq![s]
        },
        None => seq![s],
    }
}

/// Splits `s` on every occurrence of the separator character `sep`.
pub fn split_char(s: &Vec<char>, sep: char) -> (r: Vec<Vec<char>>)
    ensures
        r@.map_values(|p: Vec<char>| p@) == spec_split_char(s@, sep),
        r@.len() >= 1,
    decreases s@.len(),
{
    proof {
        lemma_find_char_bounds(s@, sep, 0);
    }
    match find_char(s, sep, 0) {
        Some(j) => {
            let n = s.len();
            assert(j < s@.len());
            let head = subrange_chars(s, 0, j);
            let tail_src = subrange_chars(s, j + 1, n);
            let mut r = split_char(&tail_src, sep);
            let ghost tail_view = r@.map_values(|p: Vec<char>| p@);
            r.insert(0, head);
            assert(r@.map_values(|p: Vec<char>| p@) =~= seq![s@.subrange(0, j as int)]
                + tail_view);
            r
        },
        None => {
            let whole = subrange_chars(s, 0, s.len());
            let mut r: Vec<Vec<char>> = Vec::new();
            assert(whole@ =~= s@);
            r.push(whole);
            assert(r@.map_values(|p: Vec<char>| p@) =~= seq![s@]);
            r
        },
    }
}

/// A position found by `spec_find_char` lies within the string and past `from`.
pub proof fn lemma_find_char_bounds(s: Seq<char>, c: char, from: nat)
    ensures
        match spec_find_char(s, c, from) {
            Some(j) => from <= j < s.len() && s[j as int] == c,
            None => true,
        },
    decreases s.len() - from,
{
    if from < s.len() && s[from as int] != c {
        lemma_find_char_bounds(s, c, from + 1);
    }
}

/// Copies a character vector.
pub fn clone_chars(v: &Vec<char>) -> (r: Vec<char>)
    ensures
        r@ == v@,
{
    let mut r: Vec<char> = Vec::new();
    let mut i: usize = 0;
    while i < v.len()
        invariant
            i <= v@.len(),
            r@ == v@.subrange(0, i as int),
        decreases v@.len() - i,
    {
        assert(v@.subrange(0, i + 1) =~= v@.subrange(0, i as int).push(v@[i as int]));
        r.push(v[i]);
        i = i + 1;
    }
    assert(v@.subrange(0, v@.len() as int) =~= v@);
    r
}

} // verus!
