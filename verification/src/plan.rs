//! Incremental build planning: staleness detection over file modification
//! times, selection of the source files that need recompilation, artifact
//! path derivation, and classpath composition.

use vstd::prelude::*;

use crate::text::{
    append_str_chars, chars_to_string, ends_with, spec_ends_with, str_to_chars, subrange_chars,
};

verus! {

/// Whether a compiled artifact must be rebuilt from its source.
///
/// A missing timestamp (`None`) stands for a file that is absent or whose
/// metadata could not be read; either case conservatively forces a rebuild.
/// When both timestamps are known, the artifact is stale exactly when the
/// source is strictly newer.
pub open spec fn spec_is_stale(source_mtime: Option<u64>, artifact_mtime: Option<u64>) -> bool {
    match (source_mtime, artifact_mtime) {
        (Some(s), Some(a)) => s > a,
        _ => true,
    }
}

/// Decides whether a source file must be recompiled, from the modification
/// times of the source file and of its compiled artifact (`None` when the
/// file is absent or its metadata is unreadable).
pub fn is_stale(source_mtime: Option<u64>, artifact_mtime: Option<u64>) -> (r: bool)
    ensures
        r == spec_is_stale(source_mtime, artifact_mtime),
{
    match (source_mtime, artifact_mtime) {
        (Some(s), Some(a)) => s > a,
        _ => true,
    }
}

/// One discovered source file, as the planner sees it: the path handed to
/// the compiler, and the modification times of the file and of its compiled
/// artifact (`None` when absent or unreadable).
pub struct SourceEntry {
    pub path: String,
    pub source_mtime: Option<u64>,
    pub artifact_mtime: Option<u64>,
}

/// The mathematical value of a [`SourceEntry`].
#[verifier::ext_equal]
pub struct SourceEntryView {
    pub path: Seq<char>,
    pub source_mtime: Option<u64>,
    pub artifact_mtime: Option<u64>,
}

impl View for SourceEntry {
    type V = SourceEntryView;

    open spec fn view(&self) -> SourceEntryView {
        SourceEntryView {
            path: self.path@,
            source_mtime: self.source_mtime,
            artifact_mtime: self.artifact_mtime,
        }
    }
}

/// Whether an entry's artifact is stale.
pub open spec fn spec_entry_stale(e: SourceEntryView) -> bool {
    spec_is_stale(e.source_mtime, e.artifact_mtime)
}

/// The paths of the entries whose artifacts are stale, in discovery order:
/// the minimal set of files to hand to the compiler.
pub open spec fn spec_compile_list(entries: Seq<SourceEntryView>) -> Seq<Seq<char>>
    decreases entries.len(),
{
    if entries.len() == 0 {
        Seq::empty()
    } else {
        spec_compile_list(entries.drop_last()) + (if spec_entry_stale(entries.last()) {
            seq![entries.last().path]
        } else {
            Seq::empty()
        })
    }
}

/// Selects the source files that need recompilation: exactly those whose
/// artifact is missing or older than the source.
pub fn plan_compilation(entries: &Vec<SourceEntry>) -> (r: Vec<String>)
    ensures
        r@.map_values(|p: String| p@) == spec_compile_list(
            entries@.map_values(|e: SourceEntry| e@),
        ),
{
    let ghost evs = entries@.map_values(|e: SourceEntry| e@);
    let n = entries.len();
    let mut r: Vec<String> = Vec::new();
    let mut i: usize = 0;
    assert(evs.take(0) =~= Seq::<SourceEntryView>::empty());
    assert(r@.map_values(|p: String| p@) =~= spec_compile_list(evs.take(0)));
    while i < n
        invariant
            n == entries@.len(),
            evs == entries@.map_values(|e: SourceEntry| e@),
            i <= n,
            r@.map_values(|p: String| p@) == spec_compile_list(evs.take(i as int)),
        decreases n - i,
    {
        proof {
            assert(evs.take(i + 1).drop_last() =~= evs.take(i as int));
            assert(evs.take(i + 1).last() == evs[i as int]);
        }
        let e = &entries[i];
        if is_stale(e.source_mtime, e.artifact_mtime) {
            let ghost pre = r@.map_values(|p: String| p@);
            r.push(e.path.clone());
            assert(r@.map_values(|p: String| p@) =~= pre.push(evs[i as int].path));
        }
        assert(r@.map_values(|p: String| p@) =~= spec_compile_list(evs.take(i + 1)));
        i = i + 1;
    }
    assert(evs.take(n as int) =~= evs);
    r
}

/// The compile list is exact: a file joins the plan only for a record whose
/// artifact is missing or older than its source — never for one whose
/// artifact is newer — and every stale record's file is planned.
pub proof fn lemma_plan_exactly_stale(entries: Seq<SourceEntryView>)
    ensures
        forall|p: Seq<char>|
            spec_compile_list(entries).contains(p) ==> exists|i: int|
                0 <= i < entries.len() && spec_entry_stale(#[trigger] entries[i]) && p
                    == entries[i].path,
        forall|i: int|
            0 <= i < entries.len() && spec_entry_stale(#[trigger] entries[i])
                ==> spec_compile_list(entries).contains(entries[i].path),
    decreases entries.len(),
{
    if entries.len() > 0 {
        let head = entries.drop_last();
        lemma_plan_exactly_stale(head);
        assert forall|p: Seq<char>| spec_compile_list(entries).contains(p) implies exists|i: int|
            0 <= i < entries.len() && spec_entry_stale(#[trigger] entries[i]) && p
                == entries[i].path by {
            let j = choose|j: int|
                0 <= j < spec_compile_list(entries).len() && spec_compile_list(entries)[j] == p;
            if j < spec_compile_list(head).len() {
                assert(spec_compile_list(head)[j] == p);
                assert(spec_compile_list(head).contains(p));
                let i = choose|i: int|
                    0 <= i < head.len() && spec_entry_stale(#[trigger] head[i]) && p
                        == head[i].path;
                assert(entries[i] == head[i]);
            } else {
                assert(spec_entry_stale(entries.last()) && p == entries.last().path);
                assert(entries[entries.len() - 1] == entries.last());
            }
        }
        assert forall|i: int|
            0 <= i < entries.len() && spec_entry_stale(#[trigger] entries[i])
                implies spec_compile_list(entries).contains(entries[i].path) by {
            if i < entries.len() - 1 {
                assert(head[i] == entries[i]);
                assert(spec_compile_list(head).contains(head[i].path));
                let j = choose|j: int|
                    0 <= j < spec_compile_list(head).len() && spec_compile_list(head)[j]
                        == head[i].path;
                assert(spec_compile_list(entries)[j] == entries[i].path);
            } else {
                assert(entries.last() == entries[i]);
                assert(spec_compile_list(entries)[spec_compile_list(entries).len() - 1]
                    == entries[i].path);
            }
        }
    }
}

/// Entries none of which is stale plan nothing.
pub proof fn lemma_no_stale_plans_nothing(entries: Seq<SourceEntryView>)
    requires
        forall|i: int| 0 <= i < entries.len() ==> !spec_entry_stale(#[trigger] entries[i]),
    ensures
        spec_compile_list(entries).len() == 0,
    decreases entries.len(),
{
    if entries.len() > 0 {
        assert(forall|i: int|
            0 <= i < entries.drop_last().len() ==> entries.drop_last()[i] == entries[i]);
        lemma_no_stale_plans_nothing(entries.drop_last());
    }
}

/// Planning is idempotent across a build: when a compile refreshes every
/// planned artifact to a time no earlier than its source, and no source
/// changes, a second planning run over the same files plans nothing.
pub proof fn lemma_replan_after_build_empty(
    before: Seq<SourceEntryView>,
    after: Seq<SourceEntryView>,
    build_time: u64,
)
    requires
        before.len() == after.len(),
        forall|i: int|
            0 <= i < before.len() ==> {
                &&& (#[trigger] after[i]).path == before[i].path
                &&& after[i].source_mtime == before[i].source_mtime
                &&& before[i].source_mtime matches Some(s) && s <= build_time
                &&& after[i].artifact_mtime == if spec_entry_stale(before[i]) {
                    Some(build_time)
                } else {
                    before[i].artifact_mtime
                }
            },
    ensures
        spec_compile_list(after).len() == 0,
{
    assert forall|i: int| 0 <= i < after.len() implies !spec_entry_stale(#[trigger] after[i]) by {
        assert(after[i].source_mtime == before[i].source_mtime);
        if !spec_entry_stale(before[i]) {
            assert(after[i].artifact_mtime == before[i].artifact_mtime);
        }
    }
    lemma_no_stale_plans_nothing(after);
}

/// The root-relative path of the compiled artifact for a root-relative
/// source path: the `.java` extension replaced by `.class` (appended when
/// the path does not end in `.java`).
pub open spec fn spec_artifact_rel(rel: Seq<char>) -> Seq<char> {
    if spec_ends_with(rel, ".java"@) {
        rel.take(rel.len() - ".java"@.len()) + ".class"@
    } else {
        rel + ".class"@
    }
}

/// Derives the artifact's root-relative path from a source file's
/// root-relative path, preserving the hierarchical (package) structure.
pub fn artifact_rel_path(rel: &str) -> (r: String)
    ensures
        r@ == spec_artifact_rel(rel@),
{
    let rc = str_to_chars(rel);
    let suffix = str_to_chars(".java");
    if ends_with(&rc, &suffix) {
        let mut stem = subrange_chars(&rc, 0, rc.len() - suffix.len());
        assert(stem@ =~= rel@.take(rel@.len() - ".java"@.len()));
        append_str_chars(&mut stem, ".class");
        chars_to_string(&stem)
    } else {
        let mut whole = crate::text::clone_chars(&rc);
        append_str_chars(&mut whole, ".class");
        chars_to_string(&whole)
    }
}

/// A root-relative path placed under a root directory, joined with the path
/// separator.
pub open spec fn spec_under_root(root: Seq<char>, rel: Seq<char>) -> Seq<char> {
    root + "/"@ + rel
}

/// Joins a root directory and a root-relative path.
pub fn path_under_root(root: &str, rel: &str) -> (r: String)
    ensures
        r@ == spec_under_root(root@, rel@),
{
    let mut out = str_to_chars(root);
    append_str_chars(&mut out, "/");
    append_str_chars(&mut out, rel);
    chars_to_string(&out)
}

/// The classpath string for a list of entries: the entries in order, joined
/// with the separator.
pub open spec fn spec_join_paths(parts: Seq<Seq<char>>, sep: char) -> Seq<char>
    decreases parts.len(),
{
    if parts.len() == 0 {
        Seq::empty()
    } else if parts.len() == 1 {
        parts[0]
    } else {
        spec_join_paths(parts.drop_last(), sep) + seq![sep] + parts.last()
    }
}

/// Joins path entries with the platform's path-list separator character.
pub fn join_paths(parts: &Vec<String>, sep: char) -> (r: String)
    ensures
        r@ == spec_join_paths(parts@.map_values(|p: String| p@), sep),
{
    let ghost pvs = parts@.map_values(|p: String| p@);
    let n = parts.len();
    let mut out: Vec<char> = Vec::new();
    let mut i: usize = 0;
    assert(pvs.take(0) =~= Seq::<Seq<char>>::empty());
    while i < n
        invariant
            n == parts@.len(),
            pvs == parts@.map_values(|p: String| p@),
            i <= n,
            out@ == spec_join_paths(pvs.take(i as int), sep),
        decreases n - i,
    {
        proof {
            assert(pvs.take(i + 1).drop_last() =~= pvs.take(i as int));
            assert(pvs.take(i + 1).last() == pvs[i as int]);
        }
        if i > 0 {
            let mut sepv: Vec<char> = Vec::new();
            sepv.push(sep);
            crate::text::append_chars(&mut out, &sepv);
        }
        append_str_chars(&mut out, parts[i].as_str());
        assert(out@ =~= spec_join_paths(pvs.take(i + 1), sep));
        i = i + 1;
    }
    assert(pvs.take(n as int) =~= pvs);
    chars_to_string(&out)
}

/// The names, among `names`, that end in `.jar`: the archives a cache
/// directory listing contributes to the classpath.
pub open spec fn spec_jar_files(names: Seq<Seq<char>>) -> Seq<Seq<char>>
    decreases names.len(),
{
    if names.len() == 0 {
        Seq::empty()
    } else {
        spec_jar_files(names.drop_last()) + (if spec_ends_with(names.last(), ".jar"@) {
            seq![names.last()]
        } else {
            Seq::empty()
        })
    }
}

/// Keeps the file names that end in `.jar`.
pub fn filter_jars(names: &Vec<String>) -> (r: Vec<String>)
    ensures
        r@.map_values(|p: String| p@) == spec_jar_files(names@.map_values(|p: String| p@)),
{
    let ghost nvs = names@.map_values(|p: String| p@);
    let n = names.len();
    let mut r: Vec<String> = Vec::new();
    let mut i: usize = 0;
    assert(nvs.take(0) =~= Seq::<Seq<char>>::empty());
    assert(r@.map_values(|p: String| p@) =~= spec_jar_files(nvs.take(0)));
    while i < n
        invariant
            n == names@.len(),
            nvs == names@.map_values(|p: String| p@),
            i <= n,
            r@.map_values(|p: String| p@) == spec_jar_files(nvs.take(i as int)),
        decreases n - i,
    {
        proof {
            assert(nvs.take(i + 1).drop_last() =~= nvs.take(i as int));
            assert(nvs.take(i + 1).last() == nvs[i as int]);
        }
        let nc = str_to_chars(names[i].as_str());
        let suffix = str_to_chars(".jar");
        if ends_with(&nc, &suffix) {
            let ghost pre = r@.map_values(|p: String| p@);
            r.push(names[i].clone());
            assert(r@.map_values(|p: String| p@) =~= pre.push(nvs[i as int]));
        }
        assert(r@.map_values(|p: String| p@) =~= spec_jar_files(nvs.take(i + 1)));
        i = i + 1;
    }
    assert(nvs.take(n as int) =~= nvs);
    r
}

/// The classpath entries of one compile invocation: the relevant output
/// roots — for a test compile, the main output root — ahead of every
/// archive in the cache listing.
pub open spec fn spec_classpath_entries(
    jars: Seq<Seq<char>>,
    main_output: Option<Seq<char>>,
    is_test: bool,
) -> Seq<Seq<char>> {
    (match main_output {
        Some(m) => if is_test {
            seq![m]
        } else {
            Seq::empty()
        },
        None => Seq::empty(),
    }) + jars
}

/// Appends clones of every name in `src` to `entries`.
fn push_all(entries: &mut Vec<String>, src: &Vec<String>)
    ensures
        final(entries)@.map_values(|p: String| p@) == old(entries)@.map_values(|p: String| p@)
            + src@.map_values(|p: String| p@),
{
    let ghost base = entries@.map_values(|p: String| p@);
    let n = src.len();
    let mut i: usize = 0;
    assert(base + src@.map_values(|p: String| p@).take(0) =~= base);
    while i < n
        invariant
            n == src@.len(),
            i <= n,
            entries@.map_values(|p: String| p@) == base + src@.map_values(|p: String| p@).take(
                i as int,
            ),
        decreases n - i,
    {
        let ghost pre = entries@.map_values(|p: String| p@);
        entries.push(src[i].clone());
        assert(entries@.map_values(|p: String| p@) =~= pre.push(src@[i as int]@));
        assert(entries@.map_values(|p: String| p@) =~= base + src@.map_values(
            |p: String| p@,
        ).take(i + 1));
        i = i + 1;
    }
    assert(src@.map_values(|p: String| p@).take(n as int) =~= src@.map_values(|p: String| p@));
}

/// Composes a compile classpath: for a test compile the main output root
/// comes first, then every archive name from the cache directory; entries
/// are joined with the given path-list separator.
pub fn build_classpath(
    jars: &Vec<String>,
    main_output: Option<&String>,
    is_test: bool,
    sep: char,
) -> (r: String)
    ensures
        r@ == spec_join_paths(
            spec_classpath_entries(
                jars@.map_values(|p: String| p@),
                match main_output {
                    Some(m) => Some(m@),
                    None => None,
                },
                is_test,
            ),
            sep,
        ),
{
    let mut entries: Vec<String> = Vec::new();
    if is_test {
        match main_output {
            Some(m) => {
                entries.push(m.clone());
                assert(entries@.map_values(|p: String| p@) =~= seq![m@]);
            },
            None => {},
        }
    }
    push_all(&mut entries, jars);
    assert(entries@.map_values(|p: String| p@) =~= spec_classpath_entries(
        jars@.map_values(|p: String| p@),
        match main_output {
            Some(m) => Some(m@),
            None => None,
        },
        is_test,
    ));
    join_paths(&entries, sep)
}

/// The classpath entries of a runtime invocation: the relevant output
/// roots — the main output root, ahead of the test output root when a test
/// run includes one — and then every cached archive.
pub open spec fn spec_runtime_classpath_entries(
    main_output: Seq<char>,
    test_output: Option<Seq<char>>,
    jars: Seq<Seq<char>>,
) -> Seq<Seq<char>> {
    (match test_output {
        Some(t) => seq![main_output, t],
        None => seq![main_output],
    }) + jars
}

/// Composes the classpath of a runtime or test-runner invocation: the main
/// output root, the test output root when given, and every cached archive,
/// joined with the given path-list separator.
pub fn runtime_classpath(
    main_output: &String,
    test_output: Option<&String>,
    jars: &Vec<String>,
    sep: char,
) -> (r: String)
    ensures
        r@ == spec_join_paths(
            spec_runtime_classpath_entries(
                main_output@,
                match test_output {
                    Some(t) => Some(t@),
                    None => None,
                },
                jars@.map_values(|p: String| p@),
            ),
            sep,
        ),
{
    let mut entries: Vec<String> = Vec::new();
    entries.push(main_output.clone());
    match test_output {
        Some(t) => {
            entries.push(t.clone());
            assert(entries@.map_values(|p: String| p@) =~= seq![main_output@, t@]);
        },
        None => {
            assert(entries@.map_values(|p: String| p@) =~= seq![main_output@]);
        },
    }
    push_all(&mut entries, jars);
    assert(entries@.map_values(|p: String| p@) =~= spec_runtime_classpath_entries(
        main_output@,
        match test_output {
            Some(t) => Some(t@),
            None => None,
        },
        jars@.map_values(|p: String| p@),
    ));
    join_paths(&entries, sep)
}

} // verus!
