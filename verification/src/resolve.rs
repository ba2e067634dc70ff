//! Transitive dependency resolution.
//!
//! A run walks the dependency graph breadth-first from a set of root
//! coordinates. A work queue holds `(group:artifact, version)` pairs; the
//! visited set of `group:artifact:version` keys guarantees that each
//! coordinate is handed out for fetching at most once per run, which also
//! terminates cycles. A fetched descriptor's dependency list is filtered —
//! entries with scope `test` or marked optional never become traversal
//! edges — and the survivors are enqueued. Fetch and parse failures are
//! collected into an aggregate report; they never halt the walk.

use vstd::prelude::*;

use crate::pom::{DepView, PomModel};
use crate::text::{
    append_str_chars, chars_to_string, replace_char, spec_replace_char, spec_split_char,
    split_char, str_to_chars,
};

verus! {

/// The key under which a coordinate is remembered in the visited set.
pub open spec fn spec_coord_key(dep: Seq<char>, version: Seq<char>) -> Seq<char> {
    dep + ":"@ + version
}

/// The `group:artifact` pair of a dependency key, when the key has exactly
/// two colon-separated segments.
pub open spec fn spec_dep_parts(dep: Seq<char>) -> Option<(Seq<char>, Seq<char>)> {
    let parts = spec_split_char(dep, ':');
    if parts.len() == 2 {
        Some((parts[0], parts[1]))
    } else {
        None
    }
}

/// The file name under which a coordinate's archive is cached and fetched.
pub open spec fn spec_jar_name(artifact: Seq<char>, version: Seq<char>) -> Seq<char> {
    artifact + "-"@ + version + ".jar"@
}

/// The file name under which a coordinate's metadata document is cached and
/// fetched.
pub open spec fn spec_pom_name(artifact: Seq<char>, version: Seq<char>) -> Seq<char> {
    artifact + "-"@ + version + ".pom"@
}

/// The remote directory that holds a coordinate's files: the repository
/// root, then the group with dots as path separators, artifact, and version.
pub open spec fn spec_base_url(group: Seq<char>, artifact: Seq<char>, version: Seq<char>) -> Seq<
    char,
> {
    "https://repo1.maven.org/maven2/"@ + spec_replace_char(group, '.', '/') + "/"@ + artifact
        + "/"@ + version
}

/// Builds the coordinate key `dep:version`.
pub fn make_key(dep: &str, version: &str) -> (r: String)
    ensures
        r@ == spec_coord_key(dep@, version@),
{
    let mut out = str_to_chars(dep);
    append_str_chars(&mut out, ":");
    append_str_chars(&mut out, version);
    chars_to_string(&out)
}

/// Derives the remote base URL, archive file name, and metadata file name
/// for a dependency key and version; a key without exactly two
/// colon-separated segments yields nothing.
pub fn dep_to_url(dep: &str, version: &str) -> (r: Option<(String, String, String)>)
    ensures
        match spec_dep_parts(dep@) {
            Some(parts) => match r {
                Some(t) => t.0@ == spec_base_url(parts.0, parts.1, version@) && t.1@
                    == spec_jar_name(parts.1, version@) && t.2@ == spec_pom_name(
                    parts.1,
                    version@,
                ),
                None => false,
            },
            None => r == None::<(String, String, String)>,
        },
{
    let chars = str_to_chars(dep);
    let parts = split_char(&chars, ':');
    if parts.len() != 2 {
        return None;
    }
    let ghost sparts = spec_split_char(dep@, ':');
    assert(parts@[0]@ == sparts[0] && parts@[1]@ == sparts[1]) by {
        assert(parts@.map_values(|p: Vec<char>| p@)[0] == sparts[0]);
        assert(parts@.map_values(|p: Vec<char>| p@)[1] == sparts[1]);
    }
    let path = replace_char(&parts[0], '.', '/');

    let mut jar = crate::text::clone_chars(&parts[1]);
    append_str_chars(&mut jar, "-");
    append_str_chars(&mut jar, version);
    append_str_chars(&mut jar, ".jar");

    let mut pom = crate::text::clone_chars(&parts[1]);
    append_str_chars(&mut pom, "-");
    append_str_chars(&mut pom, version);
    append_str_chars(&mut pom, ".pom");

    let mut base: Vec<char> = Vec::new();
    append_str_chars(&mut base, "https://repo1.maven.org/maven2/");
    crate::text::append_chars(&mut base, &path);
    append_str_chars(&mut base, "/");
    crate::text::append_chars(&mut base, &parts[1]);
    append_str_chars(&mut base, "/");
    append_str_chars(&mut base, version);

    Some((chars_to_string(&base), chars_to_string(&jar), chars_to_string(&pom)))
}

/// The cap on simultaneously in-flight fetch operations: the workload is
/// I/O bound, so the cap exceeds the machine's core count fourfold.
pub fn get_max_concurrent_downloads(cores: usize) -> (r: usize)
    requires
        cores <= usize::MAX / 4,
    ensures
        r == 4 * cores,
{
    4 * cores
}

/// What one attempt to obtain one remote file came to: already present in
/// the cache, downloaded, absent on the remote side (soft failure), or
/// failed for another reason.
pub enum FetchOutcome {
    Cached,
    Fetched,
    NotFound,
    Failed(String),
}

/// The mathematical value of a [`FetchOutcome`].
#[verifier::ext_equal]
pub enum OutcomeView {
    Cached,
    Fetched,
    NotFound,
    Failed(Seq<char>),
}

impl View for FetchOutcome {
    type V = OutcomeView;

    open spec fn view(&self) -> OutcomeView {
        match self {
            FetchOutcome::Cached => OutcomeView::Cached,
            FetchOutcome::Fetched => OutcomeView::Fetched,
            FetchOutcome::NotFound => OutcomeView::NotFound,
            FetchOutcome::Failed(m) => OutcomeView::Failed(m@),
        }
    }
}

/// Whether an outcome counts as a failure in the aggregate report.
pub open spec fn spec_outcome_is_error(o: OutcomeView) -> bool {
    o == OutcomeView::NotFound || o matches OutcomeView::Failed(_)
}

/// One recorded failure of a resolution run: the coordinate key, whether the
/// archive (rather than the metadata document) was concerned, and what
/// happened. An unparsable metadata document is recorded with no fetch
/// outcome.
pub struct ResolveFailure {
    pub key: String,
    pub archive: bool,
    pub outcome: Option<FetchOutcome>,
}

/// The mathematical value of a [`ResolveFailure`].
#[verifier::ext_equal]
pub struct FailureView {
    pub key: Seq<char>,
    pub archive: bool,
    pub outcome: Option<OutcomeView>,
}

impl View for ResolveFailure {
    type V = FailureView;

    open spec fn view(&self) -> FailureView {
        FailureView {
            key: self.key@,
            archive: self.archive,
            outcome: match self.outcome {
                Some(ref o) => Some(o@),
                None => None,
            },
        }
    }
}

/// One unit of fetch work handed to the caller: a coordinate popped from the
/// queue and freshly marked visited, with its remote base URL and the names
/// of its archive and metadata files.
pub struct WorkItem {
    pub dep: String,
    pub version: String,
    pub key: String,
    pub base_url: String,
    pub jar_name: String,
    pub pom_name: String,
}

/// Whether a dependency is excluded from transitive traversal: scope `test`
/// or marked optional.
pub open spec fn spec_excluded(d: DepView) -> bool {
    d.scope == Some("test"@) || d.optional
}

/// The traversal edges a parsed descriptor contributes: one
/// `(group:artifact, version)` pair per dependency that is not excluded, in
/// declaration order.
pub open spec fn spec_edges(deps: Seq<DepView>) -> Seq<(Seq<char>, Seq<char>)>
    decreases deps.len(),
{
    if deps.len() == 0 {
        Seq::empty()
    } else {
        spec_edges(deps.drop_last()) + (if spec_excluded(deps.last()) {
            Seq::empty()
        } else {
            seq![(deps.last().group_id + ":"@ + deps.last().artifact_id, deps.last().version)]
        })
    }
}

/// What `spec_next_work` leaves behind: the remaining queue, the grown
/// visited set, and the selected coordinate, when one was selected.
#[verifier::ext_equal]
pub struct NextWork {
    pub queue: Seq<(Seq<char>, Seq<char>)>,
    pub visited: Seq<Seq<char>>,
    pub selected: Option<(Seq<char>, Seq<char>)>,
}

/// How the resolver selects its next unit of work: queue entries are popped
/// in order; an entry whose key is already visited is discarded; the first
/// surviving entry has its key marked visited and — when its dependency key
/// is well formed — is selected. A malformed key is skipped, but stays
/// marked visited.
pub open spec fn spec_next_work(queue: Seq<(Seq<char>, Seq<char>)>, visited: Seq<Seq<char>>) -> NextWork
    decreases queue.len(),
{
    if queue.len() == 0 {
        NextWork { queue, visited, selected: None }
    } else {
        let dep = queue[0].0;
        let ver = queue[0].1;
        let rest = queue.drop_first();
        let key = spec_coord_key(dep, ver);
        if visited.contains(key) {
            spec_next_work(rest, visited)
        } else if spec_dep_parts(dep) is Some {
            NextWork { queue: rest, visited: visited.push(key), selected: Some((dep, ver)) }
        } else {
            spec_next_work(rest, visited.push(key))
        }
    }
}

/// The state of one resolution run: the work queue of
/// `(group:artifact, version)` pairs, the visited set of coordinate keys,
/// and the failures recorded so far.
pub struct Resolver {
    pub queue: Vec<(String, String)>,
    pub visited: Vec<String>,
    pub failures: Vec<ResolveFailure>,
}

impl Resolver {
    /// The queue as a sequence of `(dependency key, version)` pairs.
    pub open spec fn queue_view(&self) -> Seq<(Seq<char>, Seq<char>)> {
        self.queue@.map_values(|p: (String, String)| (p.0@, p.1@))
    }

    /// The visited set as a sequence of coordinate keys.
    pub open spec fn visited_view(&self) -> Seq<Seq<char>> {
        self.visited@.map_values(|k: String| k@)
    }

    /// The recorded failures.
    pub open spec fn failures_view(&self) -> Seq<FailureView> {
        self.failures@.map_values(|f: ResolveFailure| f@)
    }

    /// Well-formedness: no coordinate key is in the visited set twice.
    pub open spec fn wf(&self) -> bool {
        self.visited_view().no_duplicates()
    }

    /// A run about to start from the given root coordinates: the roots are
    /// queued exactly as supplied — exclusion filtering never applies to
    /// them — and nothing is visited or failed yet.
    pub fn new(roots: Vec<(String, String)>) -> (r: Resolver)
        ensures
            r.queue_view() == roots@.map_values(|p: (String, String)| (p.0@, p.1@)),
            r.visited_view() == Seq::<Seq<char>>::empty(),
            r.failures_view() == Seq::<FailureView>::empty(),
            r.wf(),
    {
        let r = Resolver { queue: roots, visited: Vec::new(), failures: Vec::new() };
        assert(r.visited_view() =~= Seq::<Seq<char>>::empty());
        assert(r.failures_view() =~= Seq::<FailureView>::empty());
        r
    }

    /// Pops coordinates until one is found whose key is not yet visited,
    /// marks it visited, and hands it out with its derived URLs; every
    /// popped key — selected, already visited, or malformed — is accounted
    /// for by `spec_next_work`. Returns nothing when the queue runs out.
    pub fn next_work(&mut self) -> (r: Option<WorkItem>)
        requires
            old(self).wf(),
        ensures
            final(self).wf(),
            final(self).failures_view() == old(self).failures_view(),
            ({
                let nw = spec_next_work(old(self).queue_view(), old(self).visited_view());
                &&& final(self).queue_view() == nw.queue
                &&& final(self).visited_view() == nw.visited
                &&& match nw.selected {
                    Some(dv) => match r {
                        Some(w) => {
                            &&& w.dep@ == dv.0
                            &&& w.version@ == dv.1
                            &&& w.key@ == spec_coord_key(dv.0, dv.1)
                            &&& spec_dep_parts(dv.0) matches Some(parts) && w.base_url@
                                == spec_base_url(parts.0, parts.1, dv.1) && w.jar_name@
                                == spec_jar_name(parts.1, dv.1) && w.pom_name@ == spec_pom_name(
                                parts.1,
                                dv.1,
                            )
                        },
                        None => false,
                    },
                    None => r is None,
                }
            }),
    {
        loop
            invariant
                self.wf(),
                self.failures_view() == old(self).failures_view(),
                spec_next_work(old(self).queue_view(), old(self).visited_view())
                    == spec_next_work(self.queue_view(), self.visited_view()),
            decreases self.queue@.len(),
        {
            let ghost pre_q = self.queue_view();
            let ghost pre_v = self.visited_view();
            if self.queue.len() == 0 {
                assert(spec_next_work(pre_q, pre_v).selected is None);
                return None;
            }
            let (dep, ver) = self.queue.remove(0);
            assert(self.queue_view() =~= pre_q.drop_first());
            assert((dep@, ver@) == pre_q[0]);
            let key = make_key(dep.as_str(), ver.as_str());
            if self.contains_visited(&key) {
                continue ;
            }
            self.visited.push(key.clone());
            assert(self.visited_view() =~= pre_v.push(key@));
            proof {
                lemma_push_fresh_no_dup(pre_v, key@);
            }
            match dep_to_url(dep.as_str(), ver.as_str()) {
                Some((base_url, jar_name, pom_name)) => {
                    return Some(
                        WorkItem { dep, version: ver, key, base_url, jar_name, pom_name },
                    );
                },
                None => {
                    continue ;
                },
            }
        }
    }

    /// Whether `key` is already in the visited set.
    fn contains_visited(&self, key: &String) -> (r: bool)
        ensures
            r == self.visited_view().contains(key@),
    {
        let n = self.visited.len();
        let mut i: usize = 0;
        while i < n
            invariant
                n == self.visited@.len(),
                i <= n,
                forall|k: int| 0 <= k < i ==> self.visited_view()[k] != key@,
            decreases n - i,
        {
            let kc = str_to_chars(self.visited[i].as_str());
            let qc = str_to_chars(key.as_str());
            if crate::text::chars_eq(&kc, &qc) {
                assert(self.visited_view()[i as int] == key@);
                return true;
            }
            i = i + 1;
        }
        assert(!self.visited_view().contains(key@)) by {
            assert(forall|k: int| 0 <= k < n ==> self.visited_view()[k] != key@);
        }
        false
    }

    /// Records what one fetch came to; an outcome of `NotFound` or
    /// `Failed` joins the aggregate failure report, any other outcome is
    /// dropped.
    pub fn record_outcome(&mut self, key: String, archive: bool, outcome: FetchOutcome)
        requires
            old(self).wf(),
        ensures
            final(self).wf(),
            final(self).queue_view() == old(self).queue_view(),
            final(self).visited_view() == old(self).visited_view(),
            final(self).failures_view() == if spec_outcome_is_error(outcome@) {
                old(self).failures_view().push(
                    FailureView { key: key@, archive, outcome: Some(outcome@) },
                )
            } else {
                old(self).failures_view()
            },
    {
        let is_err = match &outcome {
            FetchOutcome::NotFound => true,
            FetchOutcome::Failed(_) => true,
            _ => false,
        };
        if is_err {
            let f = ResolveFailure { key, archive, outcome: Some(outcome) };
            let ghost fv = f@;
            self.failures.push(f);
            assert(self.failures_view() =~= old(self).failures_view().push(fv));
        }
    }

    /// Records that a coordinate's metadata document could not be parsed.
    pub fn record_unparsable(&mut self, key: String)
        requires
            old(self).wf(),
        ensures
            final(self).wf(),
            final(self).queue_view() == old(self).queue_view(),
            final(self).visited_view() == old(self).visited_view(),
            final(self).failures_view() == old(self).failures_view().push(
                FailureView { key: key@, archive: false, outcome: None },
            ),
    {
        let f = ResolveFailure { key, archive: false, outcome: None };
        let ghost fv = f@;
        self.failures.push(f);
        assert(self.failures_view() =~= old(self).failures_view().push(fv));
    }

    /// Enqueues the traversal edges of a parsed descriptor: its dependency
    /// list with `scope="test"` and optional entries filtered out, in
    /// declaration order.
    pub fn process_metadata(&mut self, model: &PomModel)
        requires
            old(self).wf(),
        ensures
            final(self).wf(),
            final(self).visited_view() == old(self).visited_view(),
            final(self).failures_view() == old(self).failures_view(),
            final(self).queue_view() == old(self).queue_view() + spec_edges(
                model@.dependencies,
            ),
    {
        let ghost deps_v = model@.dependencies;
        let n = model.dependencies.len();
        let mut i: usize = 0;
        assert(deps_v.take(0) =~= Seq::<DepView>::empty());
        assert(self.queue_view() =~= old(self).queue_view() + spec_edges(deps_v.take(0)));
        while i < n
            invariant
                n == model.dependencies@.len(),
                deps_v == model@.dependencies,
                i <= n,
                self.wf(),
                self.visited_view() == old(self).visited_view(),
                self.failures_view() == old(self).failures_view(),
                self.queue_view() == old(self).queue_view() + spec_edges(deps_v.take(i as int)),
            decreases n - i,
        {
            let d = &model.dependencies[i];
            proof {
                assert(deps_v.take(i + 1).drop_last() =~= deps_v.take(i as int));
                assert(deps_v.take(i + 1).last() == deps_v[i as int]);
            }
            let excluded = match &d.scope {
                Some(s) => crate::text::str_eq_chars("test", &str_to_chars(s.as_str())),
                None => false,
            } || d.optional;
            assert(excluded == spec_excluded(deps_v[i as int]));
            if !excluded {
                let mut sub = str_to_chars(d.group_id.as_str());
                append_str_chars(&mut sub, ":");
                append_str_chars(&mut sub, d.artifact_id.as_str());
                let ghost pre = self.queue_view();
                self.queue.push((chars_to_string(&sub), d.version.clone()));
                assert(self.queue_view() =~= pre.push(
                    (deps_v[i as int].group_id + ":"@ + deps_v[i as int].artifact_id, deps_v[
                        i as int].version),
                ));
                assert(self.queue_view() =~= old(self).queue_view() + spec_edges(
                    deps_v.take(i + 1),
                ));
            } else {
                assert(self.queue_view() =~= old(self).queue_view() + spec_edges(
                    deps_v.take(i + 1),
                ));
            }
            i = i + 1;
        }
        assert(deps_v.take(n as int) =~= deps_v);
    }

    /// How many failures the run has recorded so far.
    pub fn error_count(&self) -> (r: usize)
        ensures
            r == self.failures_view().len(),
    {
        self.failures.len()
    }

    /// Whether the work queue is exhausted.
    pub fn is_done(&self) -> (r: bool)
        ensures
            r == (self.queue_view().len() == 0),
    {
        self.queue.len() == 0
    }
}

/// The edge a dependency contributes when it is not excluded.
pub open spec fn spec_edge_of(d: DepView) -> (Seq<char>, Seq<char>) {
    (d.group_id + ":"@ + d.artifact_id, d.version)
}

/// Exclusion filtering is exact: a dependency with scope `test` or marked
/// optional never appears as a traversal edge, and every other dependency
/// appears as exactly the edge built from its coordinate.
pub proof fn lemma_edges_characterized(deps: Seq<DepView>)
    ensures
        forall|e: (Seq<char>, Seq<char>)|
            spec_edges(deps).contains(e) ==> exists|i: int|
                0 <= i < deps.len() && !spec_excluded(#[trigger] deps[i]) && e == spec_edge_of(
                    deps[i],
                ),
        forall|i: int|
            0 <= i < deps.len() && !spec_excluded(#[trigger] deps[i]) ==> spec_edges(
                deps,
            ).contains(spec_edge_of(deps[i])),
    decreases deps.len(),
{
    if deps.len() > 0 {
        let head = deps.drop_last();
        lemma_edges_characterized(head);
        let tail_part = if spec_excluded(deps.last()) {
            Seq::<(Seq<char>, Seq<char>)>::empty()
        } else {
            seq![spec_edge_of(deps.last())]
        };
        assert(spec_edges(deps) == spec_edges(head) + tail_part);
        assert forall|e: (Seq<char>, Seq<char>)| spec_edges(deps).contains(e) implies exists|i: int|
            0 <= i < deps.len() && !spec_excluded(#[trigger] deps[i]) && e == spec_edge_of(
                deps[i],
            ) by {
            let j = choose|j: int| 0 <= j < spec_edges(deps).len() && spec_edges(deps)[j] == e;
            if j < spec_edges(head).len() {
                assert(spec_edges(head)[j] == e);
                assert(spec_edges(head).contains(e));
                let i = choose|i: int|
                    0 <= i < head.len() && !spec_excluded(#[trigger] head[i]) && e == spec_edge_of(
                        head[i],
                    );
                assert(deps[i] == head[i]);
                assert(!spec_excluded(deps[i]) && e == spec_edge_of(deps[i]));
            } else {
                assert(!spec_excluded(deps.last()) && e == spec_edge_of(deps.last()));
                assert(deps[deps.len() - 1] == deps.last());
            }
        }
        assert forall|i: int|
            0 <= i < deps.len() && !spec_excluded(#[trigger] deps[i]) implies spec_edges(
            deps,
        ).contains(spec_edge_of(deps[i])) by {
            if i < deps.len() - 1 {
                assert(head[i] == deps[i]);
                assert(spec_edges(head).contains(spec_edge_of(head[i])));
                let j = choose|j: int|
                    0 <= j < spec_edges(head).len() && spec_edges(head)[j] == spec_edge_of(
                        head[i],
                    );
                assert(spec_edges(deps)[j] == spec_edge_of(deps[i]));
            } else {
                assert(deps.last() == deps[i]);
                assert(spec_edges(deps)[spec_edges(deps).len() - 1] == spec_edge_of(deps[i]));
            }
        }
    }
}

/// Pushing a key that is not yet present keeps the visited set free of
/// duplicates.
proof fn lemma_push_fresh_no_dup(visited: Seq<Seq<char>>, key: Seq<char>)
    requires
        visited.no_duplicates(),
        !visited.contains(key),
    ensures
        visited.push(key).no_duplicates(),
{
    let v2 = visited.push(key);
    assert forall|i: int, j: int| 0 <= i < j < v2.len() implies v2[i] != v2[j] by {
        if j == v2.len() - 1 {
            assert(v2[j] == key);
            assert(visited.contains(visited[i]));
        }
    }
}

/// Every distinct coordinate key is selected for fetching at most once per
/// run: selection only ever picks a key that is not yet in the visited set,
/// marks it visited at once, and the visited set never holds a key twice.
pub proof fn lemma_work_key_fresh(queue: Seq<(Seq<char>, Seq<char>)>, visited: Seq<Seq<char>>)
    requires
        visited.no_duplicates(),
    ensures
        ({
            let nw = spec_next_work(queue, visited);
            &&& nw.visited.no_duplicates()
            &&& match nw.selected {
                Some(dv) => {
                    &&& !visited.contains(spec_coord_key(dv.0, dv.1))
                    &&& nw.visited.contains(spec_coord_key(dv.0, dv.1))
                },
                None => true,
            }
        }),
    decreases queue.len(),
{
    if queue.len() > 0 {
        let dep = queue[0].0;
        let ver = queue[0].1;
        let rest = queue.drop_first();
        let key = spec_coord_key(dep, ver);
        if visited.contains(key) {
            lemma_work_key_fresh(rest, visited);
        } else if spec_dep_parts(dep) is Some {
            lemma_push_fresh_no_dup(visited, key);
            let v2 = visited.push(key);
            assert(v2[visited.len() as int] == key);
            assert(v2.contains(key));
        } else {
            lemma_push_fresh_no_dup(visited, key);
            lemma_work_key_fresh(rest, visited.push(key));
            let nw = spec_next_work(rest, visited.push(key));
            match nw.selected {
                Some(dv) => {
                    let k2 = spec_coord_key(dv.0, dv.1);
                    assert(!visited.contains(k2)) by {
                        if visited.contains(k2) {
                            let i = choose|i: int|
                                0 <= i < visited.len() && visited[i] == k2;
                            assert(visited.push(key)[i] == k2);
                        }
                    }
                },
                None => {},
            }
        }
    }
}

} // verus!
