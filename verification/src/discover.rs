//! Test-class discovery: turning discovered file paths into runtime class
//! names.

use vstd::prelude::*;

use crate::text::{
    chars_to_string, ends_with, replace_char, spec_ends_with, spec_replace_char, str_to_chars,
    subrange_chars,
};

verus! {

/// A path with every trailing repetition of `pat` removed.
pub open spec fn spec_trim_end(s: Seq<char>, pat: Seq<char>) -> Seq<char>
    decreases s.len(),
{
    if pat.len() > 0 && spec_ends_with(s, pat) {
        spec_trim_end(s.take(s.len() - pat.len()), pat)
    } else {
        s
    }
}

/// The runtime class name of a root-relative source file path: trailing
/// `.java` repetitions removed, and both path separators turned into dots.
pub open spec fn spec_class_name(rel: Seq<char>) -> Seq<char> {
    spec_replace_char(spec_replace_char(spec_trim_end(rel, ".java"@), '\\', '.'), '/', '.')
}

/// Converts a root-relative source file path into its runtime class name.
pub fn class_name_of(rel: &str) -> (r: String)
    ensures
        r@ == spec_class_name(rel@),
{
    let pat = str_to_chars(".java");
    let mut cur = str_to_chars(rel);
    loop
        invariant_except_break
            pat@ == ".java"@,
            spec_trim_end(rel@, ".java"@) == spec_trim_end(cur@, ".java"@),
        ensures
            spec_trim_end(rel@, ".java"@) == spec_trim_end(cur@, ".java"@),
            !spec_ends_with(cur@, ".java"@),
        decreases cur@.len(),
    {
        if ends_with(&cur, &pat) {
            assert(pat@.len() == 5) by {
                reveal_strlit(".java");
            }
            cur = subrange_chars(&cur, 0, cur.len() - pat.len());
        } else {
            break ;
        }
    }
    let step1 = replace_char(&cur, '\\', '.');
    let step2 = replace_char(&step1, '/', '.');
    chars_to_string(&step2)
}

/// The class names of the paths that name test classes: those ending in
/// `Test.java`, in discovery order.
pub open spec fn spec_test_classes(paths: Seq<Seq<char>>) -> Seq<Seq<char>>
    decreases paths.len(),
{
    if paths.len() == 0 {
        Seq::empty()
    } else {
        spec_test_classes(paths.drop_last()) + (if spec_ends_with(paths.last(), "Test.java"@) {
            seq![spec_class_name(paths.last())]
        } else {
            Seq::empty()
        })
    }
}

/// Finds the test classes among root-relative source file paths: every path
/// ending in `Test.java`, converted to its runtime class name.
pub fn find_test_classes(rel_paths: &Vec<String>) -> (r: Vec<String>)
    ensures
        r@.map_values(|p: String| p@) == spec_test_classes(
            rel_paths@.map_values(|p: String| p@),
        ),
{
    let ghost pvs = rel_paths@.map_values(|p: String| p@);
    let n = rel_paths.len();
    let mut r: Vec<String> = Vec::new();
    let mut i: usize = 0;
    assert(pvs.take(0) =~= Seq::<Seq<char>>::empty());
    assert(r@.map_values(|p: String| p@) =~= spec_test_classes(pvs.take(0)));
    while i < n
        invariant
            n == rel_paths@.len(),
            pvs == rel_paths@.map_values(|p: String| p@),
            i <= n,
            r@.map_values(|p: String| p@) == spec_test_classes(pvs.take(i as int)),
        decreases n - i,
    {
        proof {
            assert(pvs.take(i + 1).drop_last() =~= pvs.take(i as int));
            assert(pvs.take(i + 1).last() == pvs[i as int]);
        }
        let pc = str_to_chars(rel_paths[i].as_str());
        let suffix = str_to_chars("Test.java");
        if ends_with(&pc, &suffix) {
            let name = class_name_of(rel_paths[i].as_str());
            let ghost pre = r@.map_values(|p: String| p@);
            r.push(name);
            assert(r@.map_values(|p: String| p@) =~= pre.push(spec_class_name(pvs[i as int])));
        }
        assert(r@.map_values(|p: String| p@) =~= spec_test_classes(pvs.take(i + 1)));
        i = i + 1;
    }
    assert(pvs.take(n as int) =~= pvs);
    r
}

/// Whether `s` contains `pat` as a contiguous subsequence.
pub open spec fn spec_contains_seq(s: Seq<char>, pat: Seq<char>) -> bool {
    exists|i: int| 0 <= i <= s.len() - pat.len() && #[trigger] s.subrange(i, i + pat.len()) == pat
}

/// Scans `s` for an occurrence of `pat`.
pub fn contains_seq(s: &Vec<char>, pat: &Vec<char>) -> (r: bool)
    ensures
        r == spec_contains_seq(s@, pat@),
{
    let n = s.len();
    let m = pat.len();
    if m > n {
        assert(!spec_contains_seq(s@, pat@));
        return false;
    }
    if m == 0 {
        assert(s@.subrange(0, 0 + pat@.len() as int) =~= pat@);
        return true;
    }
    let mut i: usize = 0;
    while i <= n - m
        invariant
            n == s@.len(),
            m == pat@.len(),
            1 <= m <= n,
            i <= n - m + 1,
            forall|k: int| 0 <= k < i ==> #[trigger] s@.subrange(k, k + m) != pat@,
        decreases n - i,
    {
        let mut j: usize = 0;
        let mut matches_here = true;
        while j < m
            invariant
                n == s@.len(),
                m == pat@.len(),
                m <= n,
                i <= n - m,
                j <= m,
                matches_here == (forall|k: int| 0 <= k < j ==> s@[i + k] == pat@[k]),
            decreases m - j,
        {
            if s[i + j] != pat[j] {
                matches_here = false;
                assert(s@[i + j] != pat@[j as int]);
                j = m;
            } else {
                assert(s@[i + j] == pat@[j as int]);
                j = j + 1;
            }
        }
        if matches_here {
            assert(s@.subrange(i as int, i + m) =~= pat@);
            return true;
        }
        assert(s@.subrange(i as int, i + m) != pat@) by {
            if s@.subrange(i as int, i + m) == pat@ {
                let k = choose|k: int| 0 <= k < m && s@[i + k] != pat@[k];
                assert(s@.subrange(i as int, i + m)[k] == s@[i + k]);
            }
        }
        i = i + 1;
    }
    assert(!spec_contains_seq(s@, pat@)) by {
        if spec_contains_seq(s@, pat@) {
            let k = choose|k: int|
                0 <= k <= s@.len() - pat@.len() && #[trigger] s@.subrange(k, k + pat@.len())
                    == pat@;
            assert(s@.subrange(k, k + m) != pat@);
        }
    }
    false
}

/// The runtime class name of a compiled test artifact's root-relative path:
/// the `.class` extension removed and separators turned into dots.
pub open spec fn spec_artifact_class_name(rel: Seq<char>) -> Seq<char> {
    spec_replace_char(
        spec_replace_char(rel.take(rel.len() - ".class"@.len()), '\\', '.'),
        '/',
        '.',
    )
}

/// The class names of the compiled artifacts that name test classes: paths
/// ending in `.class` whose name mentions `Test`, in discovery order.
pub open spec fn spec_test_artifact_classes(paths: Seq<Seq<char>>) -> Seq<Seq<char>>
    decreases paths.len(),
{
    if paths.len() == 0 {
        Seq::empty()
    } else {
        spec_test_artifact_classes(paths.drop_last()) + (if spec_ends_with(
            paths.last(),
            ".class"@,
        ) && spec_contains_seq(paths.last(), "Test"@) {
            seq![spec_artifact_class_name(paths.last())]
        } else {
            Seq::empty()
        })
    }
}

/// Finds the test classes among compiled-output artifact paths: every
/// `.class` file whose path mentions `Test`, converted to its runtime class
/// name.
pub fn find_test_artifact_classes(rel_paths: &Vec<String>) -> (r: Vec<String>)
    ensures
        r@.map_values(|p: String| p@) == spec_test_artifact_classes(
            rel_paths@.map_values(|p: String| p@),
        ),
{
    let ghost pvs = rel_paths@.map_values(|p: String| p@);
    let n = rel_paths.len();
    let mut r: Vec<String> = Vec::new();
    let mut i: usize = 0;
    assert(pvs.take(0) =~= Seq::<Seq<char>>::empty());
    assert(r@.map_values(|p: String| p@) =~= spec_test_artifact_classes(pvs.take(0)));
    while i < n
        invariant
            n == rel_paths@.len(),
            pvs == rel_paths@.map_values(|p: String| p@),
            i <= n,
            r@.map_values(|p: String| p@) == spec_test_artifact_classes(pvs.take(i as int)),
        decreases n - i,
    {
        proof {
            assert(pvs.take(i + 1).drop_last() =~= pvs.take(i as int));
            assert(pvs.take(i + 1).last() == pvs[i as int]);
        }
        let pc = str_to_chars(rel_paths[i].as_str());
        let suffix = str_to_chars(".class");
        let marker = str_to_chars("Test");
        if ends_with(&pc, &suffix) && contains_seq(&pc, &marker) {
            assert(suffix@.len() == 6) by {
                reveal_strlit(".class");
            }
            let stem = subrange_chars(&pc, 0, pc.len() - suffix.len());
            assert(stem@ =~= pvs[i as int].take(pvs[i as int].len() - ".class"@.len()));
            let step1 = replace_char(&stem, '\\', '.');
            let step2 = replace_char(&step1, '/', '.');
            let ghost pre = r@.map_values(|p: String| p@);
            r.push(chars_to_string(&step2));
            assert(r@.map_values(|p: String| p@) =~= pre.push(
                spec_artifact_class_name(pvs[i as int]),
            ));
        }
        assert(r@.map_values(|p: String| p@) =~= spec_test_artifact_classes(pvs.take(i + 1)));
        i = i + 1;
    }
    assert(pvs.take(n as int) =~= pvs);
    r
}

} // verus!
