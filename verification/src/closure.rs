//! The dependency closure of a request: every project that is asked for, and
//! every project that one of them depends on, once.
//!
//! The builder decides; its caller asks the providers. It hands out the
//! projects whose versions are wanted, one at a time, and takes in what the
//! provider answered. One set of keys lives as long as the builder: a project
//! enters it by one test-and-insert, and whoever holds the builder mutably
//! holds the set alone.

use crate::cli::Source;
use crate::model::{dependency_keys, JobOutcome, ProjectRef, VersionDescriptor};
use vstd::multiset::Multiset;
use vstd::prelude::*;

verus! {

/// How far the work on one project has come.
#[derive(Debug, Clone)]
pub enum Status {
    /// Its version is still to be asked for.
    Pending,
    /// Its version has been asked for.
    InFlight,
    /// The provider has a version for the runtime and loader of the request.
    Resolved { descriptor: VersionDescriptor },
    /// The provider has none: the branch ends here.
    Pruned,
}

/// One project of the closure.
#[derive(Debug, Clone)]
pub struct Node {
    pub key: ProjectRef,
    /// Whether the request named the project itself.
    pub is_root: bool,
    pub status: Status,
}

/// The keys of the nodes, in order.
pub open spec fn keys(nodes: Seq<Node>) -> Seq<(Source, Seq<char>)> {
    nodes.map_values(|n: Node| n.key@)
}

/// The views of the references, in order.
pub open spec fn ref_views(refs: Seq<ProjectRef>) -> Seq<(Source, Seq<char>)> {
    refs.map_values(|r: ProjectRef| r@)
}

/// How many statuses stand before the first pending one.
pub open spec fn leading_settled(status: Seq<Status>) -> int
    decreases status.len(),
{
    if status.len() == 0 || status[0] is Pending {
        0
    } else {
        1 + leading_settled(status.skip(1))
    }
}

/// A position with no pending status before it, that is pending or the end.
pub proof fn lemma_leading_settled_is(status: Seq<Status>, i: int)
    requires
        0 <= i <= status.len(),
        forall|j: int| 0 <= j < i ==> !(status[j] is Pending),
        i < status.len() ==> status[i] is Pending,
    ensures
        leading_settled(status) == i,
    decreases i,
{
    if i > 0 {
        assert(!(status[0] is Pending));
        assert forall|j: int| 0 <= j < i - 1 implies !(status.skip(1)[j] is Pending) by {
            assert(status.skip(1)[j] == status[j + 1]);
        }
        lemma_leading_settled_is(status.skip(1), i - 1);
    }
}

/// What the builder holds, as far as the contracts speak of it.
pub struct Graph {
    /// The key of each project met so far, in the order in which they were first met.
    pub keys: Seq<(Source, Seq<char>)>,
    /// Whether the request named the project.
    pub roots: Seq<bool>,
    /// How far the work on each project has come.
    pub status: Seq<Status>,
    /// The references that were met again, in the order in which they were met.
    pub skipped: Seq<(Source, Seq<char>)>,
}

impl Graph {
    pub open spec fn empty() -> Graph {
        Graph { keys: Seq::empty(), roots: Seq::empty(), status: Seq::empty(), skipped: Seq::empty() }
    }

    pub open spec fn wf(self) -> bool {
        &&& self.keys.len() == self.roots.len()
        &&& self.keys.len() == self.status.len()
        &&& self.keys.no_duplicates()
    }

    /// Test and insert: a key that is new becomes a pending project, one that
    /// was met before is recorded as skipped.
    pub open spec fn meet(self, key: (Source, Seq<char>), is_root: bool) -> Graph {
        if self.keys.contains(key) {
            Graph { skipped: self.skipped.push(key), ..self }
        } else {
            Graph {
                keys: self.keys.push(key),
                roots: self.roots.push(is_root),
                status: self.status.push(Status::Pending),
                ..self
            }
        }
    }

    /// `meet` for the first `n` of `found`, in order.
    pub open spec fn meet_all(self, found: Seq<(Source, Seq<char>)>, is_root: bool, n: nat) -> Graph
        decreases n,
    {
        if n == 0 {
            self
        } else {
            self.meet_all(found, is_root, (n - 1) as nat).meet(found[n - 1], is_root)
        }
    }

    /// The first project whose version is still to be asked for; the number
    /// of projects where there is none.
    pub open spec fn first_pending(self) -> int {
        leading_settled(self.status)
    }

    /// The graph with the status of project `i` replaced.
    pub open spec fn with_status(self, i: int, status: Status) -> Graph {
        Graph { status: self.status.update(i, status), ..self }
    }

    /// The graph after the provider's answer for the project `key`, whose
    /// version was asked for: a version makes the project resolved and has its
    /// dependencies met in order, none prunes the branch. An answer for a
    /// project whose version was not asked for changes nothing.
    pub open spec fn answer(self, key: (Source, Seq<char>), descriptor: Option<VersionDescriptor>) -> Graph {
        let i = self.keys.index_of(key);
        if self.keys.contains(key) && self.status[i] is InFlight {
            match descriptor {
                None => self.with_status(i, Status::Pruned),
                Some(d) => self.with_status(i, Status::Resolved { descriptor: d }).meet_all(
                    dependency_keys(d.dependencies@),
                    false,
                    d.dependencies@.len(),
                ),
            }
        } else {
            self
        }
    }

    /// Whether every project has its answer.
    pub open spec fn finished(self) -> bool {
        forall|i: int|
            0 <= i < self.status.len() ==> !(self.status[i] is Pending) && !(self.status[i] is InFlight)
    }
}

/// The closure as far as the first `n` projects go: the key, the version and
/// the root flag of each resolved project, in the order in which the projects
/// were first met.
pub open spec fn entries_of(g: Graph, n: nat) -> Seq<((Source, Seq<char>), VersionDescriptor, bool)>
    decreases n,
{
    if n == 0 {
        Seq::empty()
    } else {
        let before = entries_of(g, (n - 1) as nat);
        match g.status[n - 1] {
            Status::Resolved { descriptor } => before.push((g.keys[n - 1], descriptor, g.roots[n - 1])),
            _ => before,
        }
    }
}

/// The keys of a closure, in order.
pub open spec fn closure_keys(entries: Seq<((Source, Seq<char>), VersionDescriptor, bool)>) -> Seq<
    (Source, Seq<char>),
> {
    entries.map_values(|e: ((Source, Seq<char>), VersionDescriptor, bool)| e.0)
}

/// One of the first `n` projects has this key.
pub open spec fn met_below(g: Graph, n: nat, key: (Source, Seq<char>)) -> bool {
    exists|j: int| 0 <= j < n && #[trigger] g.keys[j] == key
}

/// No two entries of a closure have the same provider and project id.
pub proof fn lemma_entries_distinct(g: Graph, n: nat)
    requires
        g.wf(),
        n <= g.keys.len(),
    ensures
        closure_keys(entries_of(g, n)).no_duplicates(),
        forall|k: int|
            0 <= k < entries_of(g, n).len() ==> met_below(
                g,
                n,
                #[trigger] closure_keys(entries_of(g, n))[k],
            ),
        entries_of(g, n).len() <= n,
    decreases n,
{
    if n > 0 {
        let m = (n - 1) as nat;
        lemma_entries_distinct(g, m);
        let before = closure_keys(entries_of(g, m));
        let now = closure_keys(entries_of(g, n));
        assert forall|k: int| 0 <= k < before.len() implies met_below(g, n, #[trigger] before[k]) by {
            assert(met_below(g, m, before[k]));
            let j = choose|j: int| 0 <= j < m && g.keys[j] == before[k];
            assert(0 <= j < n && g.keys[j] == before[k]);
        }
        match g.status[n - 1] {
            Status::Resolved { descriptor } => {
                assert(now =~= before.push(g.keys[n - 1]));
                assert forall|a: int, b: int| 0 <= a < now.len() && 0 <= b < now.len() && a != b implies now[a]
                    != now[b] by {
                    if a < before.len() && b < before.len() {
                    } else if a < before.len() {
                        assert(met_below(g, m, before[a]));
                        let j = choose|j: int| 0 <= j < m && g.keys[j] == before[a];
                        assert(g.keys[j] != g.keys[n - 1]);
                    } else {
                        assert(met_below(g, m, before[b]));
                        let j = choose|j: int| 0 <= j < m && g.keys[j] == before[b];
                        assert(g.keys[j] != g.keys[n - 1]);
                    }
                }
                assert forall|k: int| 0 <= k < now.len() implies met_below(g, n, #[trigger] now[k]) by {
                    if k < before.len() {
                        assert(now[k] == before[k]);
                    } else {
                        assert(g.keys[n - 1] == now[k]);
                    }
                }
            },
            _ => {
                assert(now =~= before);
            },
        }
    }
}

/// Meeting a key keeps every key once.
pub proof fn lemma_meet_wf(g: Graph, key: (Source, Seq<char>), is_root: bool)
    requires
        g.wf(),
    ensures
        g.meet(key, is_root).wf(),
        g.meet(key, is_root).keys.contains(key),
        forall|k: (Source, Seq<char>)| g.keys.contains(k) ==> g.meet(key, is_root).keys.contains(k),
{
    if !g.keys.contains(key) {
        let after = g.keys.push(key);
        assert(after[g.keys.len() as int] == key);
        assert forall|i: int, j: int| 0 <= i < after.len() && 0 <= j < after.len() && i != j implies after[i]
            != after[j] by {
            if i < g.keys.len() && j < g.keys.len() {
            } else if i < g.keys.len() {
                assert(g.keys.contains(g.keys[i]));
            } else {
                assert(g.keys.contains(g.keys[j]));
            }
        }
        assert forall|k: (Source, Seq<char>)| g.keys.contains(k) implies after.contains(k) by {
            let i = choose|i: int| 0 <= i < g.keys.len() && g.keys[i] == k;
            assert(after[i] == k);
        }
    }
}

/// Meeting keys one after the other keeps every key once.
pub proof fn lemma_meet_all_wf(g: Graph, found: Seq<(Source, Seq<char>)>, is_root: bool, n: nat)
    requires
        g.wf(),
        n <= found.len(),
    ensures
        g.meet_all(found, is_root, n).wf(),
    decreases n,
{
    if n > 0 {
        lemma_meet_all_wf(g, found, is_root, (n - 1) as nat);
        lemma_meet_wf(g.meet_all(found, is_root, (n - 1) as nat), found[n - 1], is_root);
    }
}

/// An answer keeps every key once.
pub proof fn lemma_answer_wf(g: Graph, key: (Source, Seq<char>), descriptor: Option<VersionDescriptor>)
    requires
        g.wf(),
    ensures
        g.answer(key, descriptor).wf(),
{
    let i = g.keys.index_of(key);
    if g.keys.contains(key) && g.status[i] is InFlight {
        match descriptor {
            None => {},
            Some(d) => {
                lemma_meet_all_wf(
                    g.with_status(i, Status::Resolved { descriptor: d }),
                    dependency_keys(d.dependencies@),
                    false,
                    d.dependencies@.len(),
                );
            },
        }
    }
}

/// No two projects of a closure have the same provider and project id:
/// whatever was asked for and answered, two resolved entries differ in their keys.
pub proof fn lemma_closure_has_each_project_once(g: Graph, i: int, j: int)
    requires
        g.wf(),
        0 <= i < g.keys.len(),
        0 <= j < g.keys.len(),
        i != j,
    ensures
        g.keys[i] != g.keys[j],
{
}

/// One entry of a closure.
#[derive(Debug, Clone)]
pub struct Entry {
    pub key: ProjectRef,
    pub descriptor: VersionDescriptor,
    pub is_root: bool,
}

impl View for Entry {
    type V = ((Source, Seq<char>), VersionDescriptor, bool);

    open spec fn view(&self) -> ((Source, Seq<char>), VersionDescriptor, bool) {
        (self.key@, self.descriptor, self.is_root)
    }
}

/// The views of the entries, in order.
pub open spec fn entry_views(entries: Seq<Entry>) -> Seq<
    ((Source, Seq<char>), VersionDescriptor, bool),
> {
    entries.map_values(|e: Entry| e@)
}

/// The builder of one closure.
pub struct ClosureBuilder {
    /// The projects met so far, each once.
    pub nodes: Vec<Node>,
    /// The references that were met again.
    pub skipped: Vec<ProjectRef>,
}

impl View for ClosureBuilder {
    type V = Graph;

    open spec fn view(&self) -> Graph {
        Graph {
            keys: keys(self.nodes@),
            roots: self.nodes@.map_values(|n: Node| n.is_root),
            status: self.nodes@.map_values(|n: Node| n.status),
            skipped: ref_views(self.skipped@),
        }
    }
}

impl ClosureBuilder {
    pub open spec fn wf(&self) -> bool {
        self@.wf()
    }

    /// A builder that has met the roots of a request, in order.
    pub fn new(roots: &Vec<ProjectRef>) -> (b: ClosureBuilder)
        ensures
            b.wf(),
            b@ == Graph::empty().meet_all(ref_views(roots@), true, roots.len() as nat),
            b@.flags(ref_views(roots@)),
    {
        let mut b = ClosureBuilder { nodes: Vec::new(), skipped: Vec::new() };
        proof {
            assert(b@.keys =~= Seq::empty());
            assert(b@.roots =~= Seq::empty());
            assert(b@.status =~= Seq::empty());
            assert(b@.skipped =~= Seq::empty());
        }
        let mut i: usize = 0;
        while i < roots.len()
            invariant
                i <= roots.len(),
                b.wf(),
                b@ == Graph::empty().meet_all(ref_views(roots@), true, i as nat),
            decreases roots.len() - i,
        {
            let key = roots[i].duplicate();
            assert(ref_views(roots@)[i as int] == key@);
            b.check_and_insert(key, true);
            i = i + 1;
        }
        proof {
            lemma_roots_flagged(ref_views(roots@));
        }
        b
    }

    /// Where the project `key` stands among the projects met.
    pub fn position(&self, key: &ProjectRef) -> (r: Option<usize>)
        requires
            self.wf(),
        ensures
            match r {
                Some(i) => i < self.nodes.len() && self@.keys[i as int] == key@ && self@.keys.contains(
                    key@,
                ) && self@.keys.index_of(key@) == i,
                None => !self@.keys.contains(key@),
            },
    {
        let mut i: usize = 0;
        while i < self.nodes.len()
            invariant
                i <= self.nodes.len(),
                self.wf(),
                forall|j: int| 0 <= j < i ==> self@.keys[j] != key@,
            decreases self.nodes.len() - i,
        {
            if self.nodes[i].key.same(key) {
                proof {
                    assert(self@.keys[i as int] == key@);
                    let at = self@.keys.index_of(key@);
                    assert(0 <= at < self@.keys.len() && self@.keys[at] == key@);
                }
                return Some(i);
            }
            i = i + 1;
        }
        None
    }

    /// Test and insert, in one step: whether `key` is new, in which case it is
    /// a pending project from now on; a key met before is recorded as skipped.
    pub fn check_and_insert(&mut self, key: ProjectRef, is_root: bool) -> (inserted: bool)
        requires
            old(self).wf(),
        ensures
            final(self).wf(),
            inserted == !old(self)@.keys.contains(key@),
            final(self)@ == old(self)@.meet(key@, is_root),
    {
        proof {
            lemma_meet_wf(self@, key@, is_root);
        }
        let ghost before = self@;
        match self.position(&key) {
            Some(_) => {
                self.skipped.push(key);
                proof {
                    assert(self@.skipped =~= before.skipped.push(key@));
                }
                false
            },
            None => {
                let node = Node { key, is_root, status: Status::Pending };
                self.nodes.push(node);
                proof {
                    assert(self@.keys =~= before.keys.push(key@));
                    assert(self@.roots =~= before.roots.push(is_root));
                    assert(self@.status =~= before.status.push(Status::Pending));
                }
                true
            },
        }
    }

    /// The next project whose version is to be asked for, which is in flight
    /// from now on; `None` where no project is pending.
    pub fn next_request(&mut self) -> (r: Option<ProjectRef>)
        requires
            old(self).wf(),
        ensures
            final(self).wf(),
            match r {
                Some(key) => {
                    let i = old(self)@.first_pending();
                    &&& 0 <= i < old(self)@.keys.len()
                    &&& key@ == old(self)@.keys[i]
                    &&& final(self)@ == old(self)@.with_status(i, Status::InFlight)
                },
                None => old(self)@.first_pending() == old(self)@.keys.len() && final(self)@ == old(
                    self,
                )@,
            },
    {
        let mut i: usize = 0;
        while i < self.nodes.len()
            invariant
                i <= self.nodes.len(),
                self.wf(),
                *self == *old(self),
                forall|j: int| 0 <= j < i ==> !(self@.status[j] is Pending),
            decreases self.nodes.len() - i,
        {
            let pending = match &self.nodes[i].status {
                Status::Pending => true,
                _ => false,
            };
            if pending {
                proof {
                    lemma_leading_settled_is(self@.status, i as int);
                }
                let ghost before = self@;
                let key = self.nodes[i].key.duplicate();
                let node = Node {
                    key: self.nodes[i].key.duplicate(),
                    is_root: self.nodes[i].is_root,
                    status: Status::InFlight,
                };
                self.nodes.set(i, node);
                proof {
                    assert(self@.keys =~= before.keys);
                    assert(self@.roots =~= before.roots);
                    assert(self@.status =~= before.status.update(i as int, Status::InFlight));
                }
                return Some(key);
            }
            i = i + 1;
        }
        proof {
            lemma_leading_settled_is(self@.status, self.nodes.len() as int);
        }
        None
    }

    /// Takes in what the provider answered for `key`: the version for the
    /// runtime and loader of the request, or `None` where it has none.
    pub fn on_resolved(&mut self, key: &ProjectRef, descriptor: Option<VersionDescriptor>)
        requires
            old(self).wf(),
        ensures
            final(self).wf(),
            final(self)@ == old(self)@.answer(key@, descriptor),
    {
        proof {
            lemma_answer_wf(self@, key@, descriptor);
        }
        let ghost before = self@;
        let i: usize = match self.position(key) {
            Some(i) => i,
            None => {
                return ;
            },
        };
        let in_flight = match &self.nodes[i].status {
            Status::InFlight => true,
            _ => false,
        };
        if !in_flight {
            return ;
        }
        match descriptor {
            None => {
                let node = Node {
                    key: self.nodes[i].key.duplicate(),
                    is_root: self.nodes[i].is_root,
                    status: Status::Pruned,
                };
                self.nodes.set(i, node);
                proof {
                    assert(self@.keys =~= before.keys);
                    assert(self@.roots =~= before.roots);
                    assert(self@.status =~= before.status.update(i as int, Status::Pruned));
                }
            },
            Some(d) => {
                let mut found: Vec<ProjectRef> = Vec::new();
                let mut j: usize = 0;
                while j < d.dependencies.len()
                    invariant
                        j <= d.dependencies.len(),
                        ref_views(found@) == dependency_keys(d.dependencies@).take(j as int),
                    decreases d.dependencies.len() - j,
                {
                    let target = d.dependencies[j].target.duplicate();
                    let ghost prior = ref_views(found@);
                    found.push(target);
                    proof {
                        assert(ref_views(found@) =~= prior.push(target@));
                        assert(dependency_keys(d.dependencies@).take(j + 1) =~= dependency_keys(
                            d.dependencies@,
                        ).take(j as int).push(dependency_keys(d.dependencies@)[j as int]));
                    }
                    j = j + 1;
                }
                proof {
                    assert(dependency_keys(d.dependencies@).take(d.dependencies.len() as int)
                        =~= dependency_keys(d.dependencies@));
                }
                let ghost deps = dependency_keys(d.dependencies@);
                let node = Node {
                    key: self.nodes[i].key.duplicate(),
                    is_root: self.nodes[i].is_root,
                    status: Status::Resolved { descriptor: d },
                };
                self.nodes.set(i, node);
                proof {
                    assert(self@.keys =~= before.keys);
                    assert(self@.roots =~= before.roots);
                    assert(self@.status =~= before.status.update(
                        i as int,
                        Status::Resolved { descriptor: d },
                    ));
                }
                let ghost base = self@;
                let mut k: usize = 0;
                while k < found.len()
                    invariant
                        k <= found.len(),
                        self.wf(),
                        ref_views(found@) == deps,
                        self@ == base.meet_all(deps, false, k as nat),
                    decreases found.len() - k,
                {
                    let target = found[k].duplicate();
                    assert(ref_views(found@)[k as int] == target@);
                    self.check_and_insert(target, false);
                    k = k + 1;
                }
                proof {
                    assert(found@.len() == deps.len());
                }
            },
        }
    }

    /// Whether every project has its answer.
    pub fn is_finished(&self) -> (r: bool)
        ensures
            r == self@.finished(),
    {
        let mut i: usize = 0;
        while i < self.nodes.len()
            invariant
                i <= self.nodes.len(),
                forall|j: int|
                    0 <= j < i ==> !(self@.status[j] is Pending) && !(self@.status[j] is InFlight),
            decreases self.nodes.len() - i,
        {
            let open = match &self.nodes[i].status {
                Status::Pending => true,
                Status::InFlight => true,
                _ => false,
            };
            if open {
                assert(self@.status[i as int] is Pending || self@.status[i as int] is InFlight);
                return false;
            }
            i = i + 1;
        }
        true
    }

    /// The closure: the resolved projects, each once, in the order in which
    /// they were first met.
    pub fn into_entries(self) -> (entries: Vec<Entry>)
        requires
            self.wf(),
        ensures
            entry_views(entries@) == entries_of(self@, self@.keys.len()),
            closure_keys(entry_views(entries@)).no_duplicates(),
    {
        let ghost g = self@;
        let ghost nodes = self.nodes@;
        let mut entries: Vec<Entry> = Vec::new();
        proof {
            assert(entry_views(entries@) =~= Seq::empty());
        }
        for node in it: self.nodes
            invariant
                it.seq() == nodes,
                g.keys == keys(nodes),
                g.roots == nodes.map_values(|n: Node| n.is_root),
                g.status == nodes.map_values(|n: Node| n.status),
                entry_views(entries@) == entries_of(g, it.index() as nat),
        {
            let ghost before = entry_views(entries@);
            match node.status {
                Status::Resolved { descriptor } => {
                    let entry = Entry { key: node.key, descriptor, is_root: node.is_root };
                    entries.push(entry);
                    proof {
                        assert(entry_views(entries@) =~= before.push(entry@));
                    }
                },
                _ => {},
            }
        }
        proof {
            lemma_entries_distinct(g, g.keys.len());
        }
        entries
    }

    /// How many references were met again.
    pub fn skipped_count(&self) -> (n: usize)
        ensures
            n == self@.skipped.len(),
    {
        self.skipped.len()
    }

    /// Whether the request named the project `key`.
    pub fn is_root(&self, key: &ProjectRef) -> (r: bool)
        requires
            self.wf(),
        ensures
            r == self@.is_root(key@),
    {
        match self.position(key) {
            Some(i) => self.nodes[i].is_root,
            None => false,
        }
    }

    /// The references that were met again after the first `n` of them, in
    /// the order in which they were met.
    pub fn skipped_from(&self, n: usize) -> (r: Vec<ProjectRef>)
        ensures
            ref_views(r@) == if n <= self@.skipped.len() {
                self@.skipped.skip(n as int)
            } else {
                Seq::empty()
            },
    {
        let mut r: Vec<ProjectRef> = Vec::new();
        let mut i: usize = n;
        proof {
            assert(ref_views(r@) =~= Seq::empty());
        }
        while i < self.skipped.len()
            invariant
                n <= i <= self.skipped.len() || (n > self.skipped.len() && i == n),
                r@.len() == if n <= i { i - n } else { 0 },
                forall|k: int| 0 <= k < r@.len() ==> (#[trigger] r@[k])@ == self.skipped@[n + k]@,
            decreases self.skipped.len() - i,
        {
            r.push(self.skipped[i].duplicate());
            i = i + 1;
        }
        proof {
            if n <= self@.skipped.len() {
                assert(ref_views(r@) =~= self@.skipped.skip(n as int));
            } else {
                assert(ref_views(r@) =~= Seq::empty());
            }
        }
        r
    }

    /// Takes in what the provider answered for `key`, as `on_resolved` does,
    /// and says what the answer settled: whether the request named the
    /// project, and which references of the version were skipped as projects
    /// met before.
    pub fn settle(&mut self, key: &ProjectRef, descriptor: Option<VersionDescriptor>) -> (r: Step)
        requires
            old(self).wf(),
        ensures
            final(self).wf(),
            final(self)@ == old(self)@.answer(key@, descriptor),
            r.is_root == old(self)@.is_root(key@),
            final(self)@.skipped == old(self)@.skipped + ref_views(r.skipped@),
    {
        let ghost before = self@;
        let is_root = self.is_root(key);
        let n: usize = self.skipped.len();
        self.on_resolved(key, descriptor);
        let skipped = self.skipped_from(n);
        proof {
            lemma_answer_skips(before, key@, descriptor);
            assert(self@.skipped =~= before.skipped + self@.skipped.skip(n as int));
        }
        Step { is_root, skipped }
    }
}

/// What an answer settled.
#[derive(Debug)]
pub struct Step {
    /// Whether the request named the project that the answer is for.
    pub is_root: bool,
    /// The references of the version that were skipped, in the order in
    /// which the version lists them.
    pub skipped: Vec<ProjectRef>,
}

impl Step {
    /// The outcomes that are settled with the answer itself: one skip for
    /// each reference skipped, and after them an absence where the provider
    /// has no file for the project.
    pub open spec fn settled_outcomes(skipped: nat, has_file: bool) -> Seq<JobOutcome> {
        let skips = Seq::new(skipped, |k: int| JobOutcome::SkippedDuplicate);
        if has_file {
            skips
        } else {
            skips.push(JobOutcome::NotFound)
        }
    }

    pub fn outcomes(&self, has_file: bool) -> (r: Vec<JobOutcome>)
        ensures
            r@ == Step::settled_outcomes(self.skipped@.len(), has_file),
    {
        let mut r: Vec<JobOutcome> = Vec::new();
        let mut i: usize = 0;
        proof {
            assert(r@ =~= Seq::new(0, |k: int| JobOutcome::SkippedDuplicate));
        }
        while i < self.skipped.len()
            invariant
                i <= self.skipped.len(),
                r@ == Seq::new(i as nat, |k: int| JobOutcome::SkippedDuplicate),
            decreases self.skipped.len() - i,
        {
            r.push(JobOutcome::SkippedDuplicate);
            i = i + 1;
            proof {
                assert(r@ =~= Seq::new(i as nat, |k: int| JobOutcome::SkippedDuplicate));
            }
        }
        if !has_file {
            r.push(JobOutcome::NotFound);
        }
        r
    }

    /// Whether the file of the project is downloaded with its dependencies:
    /// where the provider has one and the request did not name the project,
    /// whose own file is downloaded by whoever asked for it.
    pub fn downloads(&self, has_file: bool) -> (r: bool)
        ensures
            r == (has_file && !self.is_root),
    {
        has_file && !self.is_root
    }
}

/// An answer keeps the references skipped so far where they are.
pub proof fn lemma_answer_skips(g: Graph, key: (Source, Seq<char>), descriptor: Option<VersionDescriptor>)
    requires
        g.wf(),
    ensures
        g.skipped.len() <= g.answer(key, descriptor).skipped.len(),
        g.answer(key, descriptor).skipped.take(g.skipped.len() as int) == g.skipped,
{
    let i = g.keys.index_of(key);
    assert(g.skipped.take(g.skipped.len() as int) =~= g.skipped);
    if g.keys.contains(key) && g.status[i] is InFlight {
        match descriptor {
            None => {},
            Some(d) => {
                let base = g.with_status(i, Status::Resolved { descriptor: d });
                lemma_meet_all_flags(
                    base,
                    dependency_keys(d.dependencies@),
                    false,
                    d.dependencies@.len(),
                );
            },
        }
    }
}

/// How many references the first `n` projects make to the projects they depend on.
pub open spec fn wanted_total(status: Seq<Status>, n: nat) -> nat
    decreases n,
{
    if n == 0 {
        0
    } else {
        wanted_total(status, (n - 1) as nat) + wanted_by(status[n - 1]).len()
    }
}

/// The count of references is the same for two sequences that agree on the
/// projects counted.
pub proof fn lemma_wanted_same(a: Seq<Status>, b: Seq<Status>, n: nat)
    requires
        n <= a.len(),
        n <= b.len(),
        forall|k: int| 0 <= k < n ==> a[k] == b[k],
    ensures
        wanted_total(a, n) == wanted_total(b, n),
    decreases n,
{
    if n > 0 {
        lemma_wanted_same(a, b, (n - 1) as nat);
    }
}

/// Projects without a version make no references.
pub proof fn lemma_wanted_tail(a: Seq<Status>, from: nat, n: nat)
    requires
        from <= n <= a.len(),
        forall|k: int| from <= k < n ==> wanted_by(a[k]).len() == 0,
    ensures
        wanted_total(a, n) == wanted_total(a, from),
    decreases n,
{
    if n > from {
        lemma_wanted_tail(a, from, (n - 1) as nat);
    }
}

/// A project that made no references and now has a version makes those of the version.
pub proof fn lemma_wanted_more(a: Seq<Status>, b: Seq<Status>, i: int, n: nat)
    requires
        n <= a.len(),
        n <= b.len(),
        0 <= i < n,
        wanted_by(a[i]).len() == 0,
        forall|k: int| 0 <= k < n && k != i ==> a[k] == b[k],
    ensures
        wanted_total(b, n) == wanted_total(a, n) + wanted_by(b[i]).len(),
    decreases n,
{
    if n - 1 == i {
        lemma_wanted_same(a, b, (n - 1) as nat);
    } else {
        lemma_wanted_more(a, b, i, (n - 1) as nat);
    }
}

/// The references that the first `n` projects make to the projects they
/// depend on, each as often as it is made.
pub open spec fn wanted_bag(status: Seq<Status>, n: nat) -> Multiset<(Source, Seq<char>)>
    decreases n,
{
    if n == 0 {
        Multiset::empty()
    } else {
        wanted_bag(status, (n - 1) as nat).add(wanted_by(status[n - 1]).to_multiset())
    }
}

/// The references are the same for two sequences that agree on the projects counted.
pub proof fn lemma_wanted_bag_same(a: Seq<Status>, b: Seq<Status>, n: nat)
    requires
        n <= a.len(),
        n <= b.len(),
        forall|k: int| 0 <= k < n ==> a[k] == b[k],
    ensures
        wanted_bag(a, n) == wanted_bag(b, n),
    decreases n,
{
    if n > 0 {
        lemma_wanted_bag_same(a, b, (n - 1) as nat);
    }
}

/// Projects without a version make no references.
pub proof fn lemma_wanted_bag_tail(a: Seq<Status>, from: nat, n: nat)
    requires
        from <= n <= a.len(),
        forall|k: int| from <= k < n ==> !(a[k] is Resolved),
    ensures
        wanted_bag(a, n) == wanted_bag(a, from),
    decreases n,
{
    broadcast use vstd::multiset::group_multiset_axioms, vstd::seq_lib::group_to_multiset_ensures;

    if n > from {
        lemma_wanted_bag_tail(a, from, (n - 1) as nat);
        assert(wanted_by(a[n - 1]) =~= Seq::empty());
        assert(wanted_by(a[n - 1]).to_multiset().len() == 0);
        assert(wanted_by(a[n - 1]).to_multiset() =~= Multiset::empty());
    }
}

/// A project that had no version and now has one makes the references of the version.
pub proof fn lemma_wanted_bag_more(a: Seq<Status>, b: Seq<Status>, i: int, n: nat)
    requires
        n <= a.len(),
        n <= b.len(),
        0 <= i < n,
        !(a[i] is Resolved),
        forall|k: int| 0 <= k < n && k != i ==> a[k] == b[k],
    ensures
        wanted_bag(b, n) == wanted_bag(a, n).add(wanted_by(b[i]).to_multiset()),
    decreases n,
{
    broadcast use vstd::multiset::group_multiset_axioms, vstd::seq_lib::group_to_multiset_ensures;

    if n - 1 == i {
        lemma_wanted_bag_same(a, b, (n - 1) as nat);
        assert(wanted_by(a[i]) =~= Seq::empty());
        assert(wanted_by(a[i]).to_multiset().len() == 0);
        assert(wanted_by(a[i]).to_multiset() =~= Multiset::empty());
    } else {
        lemma_wanted_bag_more(a, b, i, (n - 1) as nat);
    }
}

/// Whether the work on a project has ended.
pub open spec fn is_settled(status: Status) -> bool {
    status is Resolved || status is Pruned
}

/// The projects that a project depends on, once its version is known.
pub open spec fn wanted_by(status: Status) -> Seq<(Source, Seq<char>)> {
    match status {
        Status::Resolved { descriptor } => dependency_keys(descriptor.dependencies@),
        _ => Seq::empty(),
    }
}

/// How many of the first `n` projects are settled.
pub open spec fn settled(status: Seq<Status>, n: nat) -> nat
    decreases n,
{
    if n == 0 {
        0
    } else {
        settled(status, (n - 1) as nat) + if is_settled(status[n - 1]) {
            1nat
        } else {
            0nat
        }
    }
}

/// The version that a catalogue offers for a project: that of the first
/// entry with the key of the project.
pub open spec fn offered(catalogue: Seq<(ProjectRef, VersionDescriptor)>, key: (Source, Seq<char>)) -> Option<
    VersionDescriptor,
>
    decreases catalogue.len(),
{
    if catalogue.len() == 0 {
        None
    } else if catalogue[0].0@ == key {
        Some(catalogue[0].1)
    } else {
        offered(catalogue.skip(1), key)
    }
}

/// How many dependencies the entries among the first `n` list whose version
/// is still to be handed out.
pub open spec fn remaining(
    offers: Seq<Option<VersionDescriptor>>,
    n: nat,
) -> nat
    decreases n,
{
    if n == 0 {
        0
    } else {
        remaining(offers, (n - 1) as nat) + match offers[n - 1] {
            Some(d) => d.dependencies@.len(),
            None => 0nat,
        }
    }
}

impl Graph {
    /// Every answer that is recorded is the one that the catalogue gives.
    pub open spec fn answers_from(self, catalogue: Seq<(ProjectRef, VersionDescriptor)>) -> bool {
        forall|i: int|
            0 <= i < self.status.len() ==> match #[trigger] self.status[i] {
                Status::Resolved { descriptor } => offered(catalogue, self.keys[i]) == Some(descriptor),
                Status::Pruned => offered(catalogue, self.keys[i]) is None,
                _ => true,
            }
    }

    /// Every project that a resolved version depends on is among the projects met.
    pub open spec fn closed(self) -> bool {
        forall|i: int, k: int|
            0 <= i < self.status.len() && 0 <= k < wanted_by(self.status[i]).len()
                ==> self.keys.contains(#[trigger] wanted_by(self.status[i])[k])
    }

    /// The references that were met, each as often as it was met: every one
    /// of them is a project of its own or is skipped.
    pub open spec fn bag(self) -> Multiset<(Source, Seq<char>)> {
        self.keys.to_multiset().add(self.skipped.to_multiset())
    }

    /// The projects and the skipped references together are the references
    /// of the request and of the resolved versions, no more and no fewer: a
    /// project is there because it is asked for or depended on, and a
    /// reference is skipped exactly where it names a project a further time.
    pub open spec fn accounts_for(self, roots: Seq<(Source, Seq<char>)>) -> bool {
        self.bag() =~= roots.to_multiset().add(wanted_bag(self.status, self.status.len()))
    }

    /// Whether the request named the project `key`.
    pub open spec fn is_root(self, key: (Source, Seq<char>)) -> bool {
        self.keys.contains(key) && self.roots[self.keys.index_of(key)]
    }

    /// The root flag of every project says whether the request named it.
    pub open spec fn flags(self, roots: Seq<(Source, Seq<char>)>) -> bool {
        forall|i: int|
            0 <= i < self.keys.len() ==> self.roots[i] == roots.contains(#[trigger] self.keys[i])
    }

    /// Every reference that was skipped names a project that is met.
    pub open spec fn skips_known(self) -> bool {
        forall|k: int| 0 <= k < self.skipped.len() ==> self.keys.contains(#[trigger] self.skipped[k])
    }

    /// Every project asked for is among the projects met.
    pub open spec fn holds(self, roots: Seq<(Source, Seq<char>)>) -> bool {
        forall|r: int| 0 <= r < roots.len() ==> self.keys.contains(#[trigger] roots[r])
    }

    /// `self` with more projects after those it has, all pending, and with
    /// the projects it has as they are.
    pub open spec fn grown_to(self, later: Graph) -> bool {
        &&& self.keys.len() <= later.keys.len()
        &&& forall|i: int|
            0 <= i < self.keys.len() ==> later.keys[i] == self.keys[i] && later.roots[i]
                == self.roots[i] && later.status[i] == self.status[i]
        &&& forall|i: int| self.keys.len() <= i < later.keys.len() ==> later.status[i] is Pending
    }
}

/// Meeting a key keeps the projects met as they are and adds at most one, pending.
pub proof fn lemma_meet_grows(g: Graph, key: (Source, Seq<char>), is_root: bool)
    requires
        g.wf(),
    ensures
        g.grown_to(g.meet(key, is_root)),
        g.meet(key, is_root).keys.len() <= g.keys.len() + 1,
        g.meet(key, is_root).keys.contains(key),
        g.meet(key, is_root).keys.len() + g.meet(key, is_root).skipped.len() == g.keys.len()
            + g.skipped.len() + 1,
        g.skips_known() ==> g.meet(key, is_root).skips_known(),
        g.meet(key, is_root).bag() == g.bag().insert(key),
{
    broadcast use vstd::multiset::group_multiset_axioms, vstd::seq_lib::group_to_multiset_ensures;

    lemma_meet_wf(g, key, is_root);
    let h = g.meet(key, is_root);
    assert(h.bag() =~= g.bag().insert(key));
    if g.skips_known() {
        assert forall|k: int| 0 <= k < h.skipped.len() implies h.keys.contains(#[trigger] h.skipped[k]) by {
            if k < g.skipped.len() {
                assert(g.keys.contains(g.skipped[k]));
            }
        }
    }
}

/// Meeting keys one after the other keeps the projects met as they are,
/// adds at most as many as keys were met, all pending, and every key met is
/// among the projects afterwards.
pub proof fn lemma_meet_all_grows(g: Graph, found: Seq<(Source, Seq<char>)>, is_root: bool, n: nat)
    requires
        g.wf(),
        n <= found.len(),
    ensures
        g.meet_all(found, is_root, n).wf(),
        g.grown_to(g.meet_all(found, is_root, n)),
        g.meet_all(found, is_root, n).keys.len() <= g.keys.len() + n,
        forall|k: int| 0 <= k < n ==> g.meet_all(found, is_root, n).keys.contains(#[trigger] found[k]),
        g.meet_all(found, is_root, n).keys.len() + g.meet_all(found, is_root, n).skipped.len()
            == g.keys.len() + g.skipped.len() + n,
        g.skips_known() ==> g.meet_all(found, is_root, n).skips_known(),
        g.meet_all(found, is_root, n).bag() == g.bag().add(found.take(n as int).to_multiset()),
    decreases n,
{
    broadcast use vstd::multiset::group_multiset_axioms, vstd::seq_lib::group_to_multiset_ensures;

    if n == 0 {
        assert(found.take(0) =~= Seq::empty());
        assert(found.take(0).to_multiset().len() == 0);
        assert(found.take(0).to_multiset() =~= Multiset::empty());
        assert(g.bag().add(found.take(0).to_multiset()) =~= g.bag());
    }
    if n > 0 {
        let before = g.meet_all(found, is_root, (n - 1) as nat);
        lemma_meet_all_grows(g, found, is_root, (n - 1) as nat);
        lemma_meet_grows(before, found[n - 1], is_root);
        assert(found.take(n as int) =~= found.take(n - 1).push(found[n - 1]));
        assert(g.meet_all(found, is_root, n).bag() =~= g.bag().add(
            found.take(n as int).to_multiset(),
        ));
        lemma_meet_wf(before, found[n - 1], is_root);
        let after = before.meet(found[n - 1], is_root);
        assert forall|k: int| 0 <= k < n implies after.keys.contains(#[trigger] found[k]) by {
            if k < n - 1 {
                assert(before.keys.contains(found[k]));
            }
        }
    }
}

/// Meeting keys one after the other keeps the references skipped so far
/// where they are, and every project that it adds is one of the keys met and
/// has the root flag that they were met with.
pub proof fn lemma_meet_all_flags(g: Graph, found: Seq<(Source, Seq<char>)>, is_root: bool, n: nat)
    requires
        g.wf(),
        n <= found.len(),
    ensures
        ({
            let h = g.meet_all(found, is_root, n);
            &&& g.skipped.len() <= h.skipped.len()
            &&& h.skipped.take(g.skipped.len() as int) == g.skipped
            &&& forall|i: int| g.keys.len() <= i < h.keys.len() ==> #[trigger] h.roots[i] == is_root
            &&& forall|i: int|
                g.keys.len() <= i < h.keys.len() ==> found.take(n as int).contains(
                    #[trigger] h.keys[i],
                )
        }),
    decreases n,
{
    if n == 0 {
        assert(g.skipped.take(g.skipped.len() as int) =~= g.skipped);
    } else {
        let before = g.meet_all(found, is_root, (n - 1) as nat);
        lemma_meet_all_flags(g, found, is_root, (n - 1) as nat);
        lemma_meet_all_grows(g, found, is_root, (n - 1) as nat);
        let h = before.meet(found[n - 1], is_root);
        assert(h.skipped.take(g.skipped.len() as int) =~= g.skipped) by {
            assert(before.skipped.take(g.skipped.len() as int) == g.skipped);
            assert forall|k: int| 0 <= k < g.skipped.len() implies h.skipped[k] == g.skipped[k] by {
                assert(before.skipped.take(g.skipped.len() as int)[k] == before.skipped[k]);
            }
        }
        assert forall|i: int| g.keys.len() <= i < h.keys.len() implies found.take(n as int).contains(
            #[trigger] h.keys[i],
        ) by {
            if i < before.keys.len() {
                let earlier = found.take(n - 1);
                assert(earlier.contains(before.keys[i]));
                let w = choose|w: int| 0 <= w < earlier.len() && earlier[w] == before.keys[i];
                assert(found.take(n as int)[w] == h.keys[i]);
            } else {
                assert(found.take(n as int)[n - 1] == h.keys[i]);
            }
        }
    }
}

/// The projects of a request are all flagged as roots, and no others are met.
pub proof fn lemma_roots_flagged(roots: Seq<(Source, Seq<char>)>)
    ensures
        Graph::empty().meet_all(roots, true, roots.len()).flags(roots),
{
    lemma_meet_all_flags(Graph::empty(), roots, true, roots.len());
    assert(roots.take(roots.len() as int) =~= roots);
}

/// An answer keeps the root flags true to the request: the projects that it
/// adds are dependencies, and none of them is a project of the request,
/// since those were all met before.
pub proof fn lemma_answer_flags(
    g: Graph,
    roots: Seq<(Source, Seq<char>)>,
    key: (Source, Seq<char>),
    descriptor: Option<VersionDescriptor>,
)
    requires
        g.wf(),
        g.holds(roots),
        g.flags(roots),
    ensures
        g.answer(key, descriptor).flags(roots),
        g.answer(key, descriptor).holds(roots),
{
    let i = g.keys.index_of(key);
    let h = g.answer(key, descriptor);
    if g.keys.contains(key) && g.status[i] is InFlight {
        match descriptor {
            None => {},
            Some(d) => {
                let base = g.with_status(i, Status::Resolved { descriptor: d });
                let deps = dependency_keys(d.dependencies@);
                lemma_meet_all_grows(base, deps, false, d.dependencies@.len());
                lemma_meet_all_flags(base, deps, false, d.dependencies@.len());
                assert(h == base.meet_all(deps, false, d.dependencies@.len()));
                assert forall|r: int| 0 <= r < roots.len() implies h.keys.contains(
                    #[trigger] roots[r],
                ) by {
                    assert(g.keys.contains(roots[r]));
                    let w = choose|w: int| 0 <= w < g.keys.len() && g.keys[w] == roots[r];
                    assert(h.keys[w] == roots[r]);
                }
                assert forall|k: int| 0 <= k < h.keys.len() implies h.roots[k] == roots.contains(
                    #[trigger] h.keys[k],
                ) by {
                    if k < g.keys.len() {
                        assert(h.keys[k] == g.keys[k] && h.roots[k] == g.roots[k]);
                    } else if roots.contains(h.keys[k]) {
                        let r = choose|r: int| 0 <= r < roots.len() && roots[r] == h.keys[k];
                        assert(g.keys.contains(roots[r]));
                        let w = choose|w: int| 0 <= w < g.keys.len() && g.keys[w] == roots[r];
                        assert(h.keys[w] == h.keys[k]);
                    }
                }
            },
        }
    }
}

/// The count of settled projects is the same for two sequences that agree
/// on the projects counted.
pub proof fn lemma_settled_same(a: Seq<Status>, b: Seq<Status>, n: nat)
    requires
        n <= a.len(),
        n <= b.len(),
        forall|k: int| 0 <= k < n ==> is_settled(a[k]) == is_settled(b[k]),
    ensures
        settled(a, n) == settled(b, n),
    decreases n,
{
    if n > 0 {
        lemma_settled_same(a, b, (n - 1) as nat);
    }
}

/// Projects that are not settled add nothing to the count.
pub proof fn lemma_settled_tail(a: Seq<Status>, from: nat, n: nat)
    requires
        from <= n <= a.len(),
        forall|k: int| from <= k < n ==> !is_settled(a[k]),
    ensures
        settled(a, n) == settled(a, from),
    decreases n,
{
    if n > from {
        lemma_settled_tail(a, from, (n - 1) as nat);
    }
}

/// At most the projects counted are settled, and fewer where one of them is not.
pub proof fn lemma_settled_bound(a: Seq<Status>, n: nat, open: int)
    requires
        n <= a.len(),
    ensures
        settled(a, n) <= n,
        0 <= open < n && !is_settled(a[open]) ==> settled(a, n) < n,
    decreases n,
{
    if n > 0 {
        lemma_settled_bound(a, (n - 1) as nat, open);
    }
}

/// Settling one project that was not settled makes the count one more.
pub proof fn lemma_settled_one_more(a: Seq<Status>, b: Seq<Status>, i: int, n: nat)
    requires
        n <= a.len(),
        n <= b.len(),
        0 <= i < n,
        !is_settled(a[i]),
        is_settled(b[i]),
        forall|k: int| 0 <= k < n && k != i ==> is_settled(a[k]) == is_settled(b[k]),
    ensures
        settled(b, n) == settled(a, n) + 1,
    decreases n,
{
    if n - 1 == i {
        lemma_settled_same(a, b, (n - 1) as nat);
    } else {
        lemma_settled_one_more(a, b, i, (n - 1) as nat);
    }
}

/// What the first entry of a catalogue with a given key offers.
pub proof fn lemma_offered_at(catalogue: Seq<(ProjectRef, VersionDescriptor)>, key: (Source, Seq<char>), j: int)
    requires
        0 <= j <= catalogue.len(),
        forall|k: int| 0 <= k < j ==> catalogue[k].0@ != key,
        j < catalogue.len() ==> catalogue[j].0@ == key,
    ensures
        offered(catalogue, key) == if j < catalogue.len() {
            Some(catalogue[j].1)
        } else {
            None
        },
    decreases j,
{
    if j > 0 {
        assert(catalogue[0].0@ != key);
        assert forall|k: int| 0 <= k < j - 1 implies catalogue.skip(1)[k].0@ != key by {
            assert(catalogue.skip(1)[k] == catalogue[k + 1]);
        }
        if j < catalogue.len() {
            assert(catalogue.skip(1)[j - 1] == catalogue[j]);
        }
        lemma_offered_at(catalogue.skip(1), key, j - 1);
    }
}

/// Handing out the version of one entry takes its dependencies from what remains.
pub proof fn lemma_remaining_taken(
    before: Seq<Option<VersionDescriptor>>,
    after: Seq<Option<VersionDescriptor>>,
    j: int,
    n: nat,
)
    requires
        n <= before.len(),
        before.len() == after.len(),
        0 <= j < before.len(),
        before[j] is Some,
        after[j] is None,
        forall|k: int| 0 <= k < before.len() && k != j ==> after[k] == before[k],
    ensures
        remaining(after, n) + (if j < n {
            before[j]->0.dependencies@.len()
        } else {
            0nat
        }) == remaining(before, n),
    decreases n,
{
    if n > 0 {
        lemma_remaining_taken(before, after, j, (n - 1) as nat);
    }
}

/// What `leading_settled` gives: the first pending status stands there, or none is pending.
pub proof fn lemma_leading_settled(status: Seq<Status>)
    ensures
        0 <= leading_settled(status) <= status.len(),
        forall|j: int| 0 <= j < leading_settled(status) ==> !(status[j] is Pending),
        leading_settled(status) < status.len() ==> status[leading_settled(status)] is Pending,
    decreases status.len(),
{
    if status.len() == 0 || status[0] is Pending {
    } else {
        lemma_leading_settled(status.skip(1));
        assert forall|j: int| 0 <= j < leading_settled(status) implies !(status[j] is Pending) by {
            if j > 0 {
                assert(status.skip(1)[j - 1] == status[j]);
            }
        }
    }
}

/// What one request and its answer do to a graph in which nothing is in
/// flight: the project asked for is settled with the answer, the other
/// projects stay as they are, and the dependencies of the answer are met.
pub proof fn lemma_answer_step(g0: Graph, i: int, answer: Option<VersionDescriptor>)
    requires
        g0.wf(),
        0 <= i < g0.keys.len(),
        g0.status[i] is Pending,
        forall|k: int| 0 <= k < g0.status.len() ==> !(#[trigger] g0.status[k] is InFlight),
    ensures
        ({
            let g2 = g0.with_status(i, Status::InFlight).answer(g0.keys[i], answer);
            &&& g2.wf()
            &&& g0.keys.len() <= g2.keys.len()
            &&& g2.keys.len() <= g0.keys.len() + match answer {
                Some(d) => d.dependencies@.len(),
                None => 0nat,
            }
            &&& forall|k: int|
                0 <= k < g0.keys.len() ==> g2.keys[k] == g0.keys[k] && g2.roots[k] == g0.roots[k]
            &&& forall|k: int| 0 <= k < g0.keys.len() && k != i ==> g2.status[k] == g0.status[k]
            &&& g2.status[i] == match answer {
                Some(d) => Status::Resolved { descriptor: d },
                None => Status::Pruned,
            }
            &&& forall|k: int| g0.keys.len() <= k < g2.keys.len() ==> g2.status[k] is Pending
            &&& forall|m: int|
                0 <= m < wanted_by(g2.status[i]).len() ==> g2.keys.contains(
                    #[trigger] wanted_by(g2.status[i])[m],
                )
            &&& settled(g2.status, g2.status.len()) == settled(g0.status, g0.status.len()) + 1
            &&& settled(g0.status, g0.status.len()) < g0.keys.len()
            &&& g2.keys.len() + g2.skipped.len() == g0.keys.len() + g0.skipped.len() + wanted_by(
                g2.status[i],
            ).len()
            &&& wanted_total(g2.status, g2.status.len()) == wanted_total(g0.status, g0.status.len())
                + wanted_by(g2.status[i]).len()
            &&& g0.skips_known() ==> g2.skips_known()
            &&& g2.bag() == g0.bag().add(wanted_by(g2.status[i]).to_multiset())
            &&& wanted_bag(g2.status, g2.status.len()) == wanted_bag(g0.status, g0.status.len()).add(
                wanted_by(g2.status[i]).to_multiset(),
            )
        }),
{
    broadcast use vstd::multiset::group_multiset_axioms, vstd::seq_lib::group_to_multiset_ensures;

    let key = g0.keys[i];
    let g1 = g0.with_status(i, Status::InFlight);
    let at = g1.keys.index_of(key);
    assert(g1.keys.contains(key));
    assert(at == i);
    let g2 = g1.answer(key, answer);
    lemma_answer_wf(g1, key, answer);
    lemma_settled_bound(g0.status, g0.status.len(), i);
    match answer {
        None => {
            assert(g2 == g1.with_status(i, Status::Pruned));
            lemma_settled_one_more(g0.status, g2.status, i, g0.status.len());
            lemma_wanted_more(g0.status, g2.status, i, g0.status.len());
            assert(g2.skipped == g0.skipped && g2.keys == g0.keys);
            lemma_wanted_bag_more(g0.status, g2.status, i, g0.status.len());
            assert(wanted_by(g2.status[i]) =~= Seq::empty());
            assert(wanted_by(g2.status[i]).to_multiset().len() == 0);
            assert(wanted_by(g2.status[i]).to_multiset() =~= Multiset::empty());
            assert(g2.bag() =~= g0.bag().add(wanted_by(g2.status[i]).to_multiset()));
        },
        Some(d) => {
            let base = g1.with_status(i, Status::Resolved { descriptor: d });
            let deps = dependency_keys(d.dependencies@);
            assert(base.skipped == g0.skipped && base.keys == g0.keys);
            lemma_meet_all_grows(base, deps, false, d.dependencies@.len());
            assert(g2 == base.meet_all(deps, false, d.dependencies@.len()));
            lemma_settled_one_more(g0.status, g2.status, i, g0.status.len());
            lemma_settled_tail(g2.status, g0.status.len(), g2.status.len());
            lemma_wanted_more(g0.status, g2.status, i, g0.status.len());
            lemma_wanted_tail(g2.status, g0.status.len(), g2.status.len());
            lemma_wanted_bag_more(g0.status, g2.status, i, g0.status.len());
            lemma_wanted_bag_tail(g2.status, g0.status.len(), g2.status.len());
            assert(deps.take(d.dependencies@.len() as int) =~= deps);
            assert(base.bag() == g0.bag());
        },
    }
}

impl ClosureBuilder {
    /// The closure of `roots` over a catalogue that lists, for some
    /// projects, the version that their provider has: every project is asked
    /// for once, in the order in which the projects are first met, and is
    /// answered by the first entry of the catalogue with its key. Every
    /// reference, of the request or of a version, is a project of its own or
    /// is skipped as one met before. Projects that depend on each other in a
    /// circle end the work like any others.
    pub fn expand(roots: &Vec<ProjectRef>, catalogue: Vec<(ProjectRef, VersionDescriptor)>) -> (b:
        ClosureBuilder)
        ensures
            b.wf(),
            b@.finished(),
            b@.holds(ref_views(roots@)),
            b@.closed(),
            b@.answers_from(catalogue@),
            b@.skips_known(),
            b@.keys.len() + b@.skipped.len() == roots@.len() + wanted_total(
                b@.status,
                b@.status.len(),
            ),
            b@.accounts_for(ref_views(roots@)),
            b@.flags(ref_views(roots@)),
    {
        let ghost cat = catalogue@;
        let mut names: Vec<ProjectRef> = Vec::new();
        let mut offers: Vec<Option<VersionDescriptor>> = Vec::new();
        for entry in it: catalogue
            invariant
                it.seq() == cat,
                names@.len() == it.index(),
                offers@.len() == it.index(),
                forall|j: int| 0 <= j < it.index() ==> (#[trigger] names@[j])@ == cat[j].0@,
                forall|j: int| 0 <= j < it.index() ==> #[trigger] offers@[j] == Some(cat[j].1),
        {
            names.push(entry.0);
            offers.push(Some(entry.1));
        }
        let mut b = ClosureBuilder::new(roots);
        let ghost cap: nat = roots@.len() + remaining(offers@, offers@.len());
        proof {
            broadcast use vstd::multiset::group_multiset_axioms, vstd::seq_lib::group_to_multiset_ensures;

            lemma_meet_all_grows(Graph::empty(), ref_views(roots@), true, roots@.len());
            assert(Graph::empty().grown_to(b@));
            lemma_wanted_tail(b@.status, 0, b@.status.len());
            lemma_wanted_bag_tail(b@.status, 0, b@.status.len());
            assert(ref_views(roots@).take(roots@.len() as int) =~= ref_views(roots@));
            assert(Graph::empty().keys.to_multiset().len() == 0);
            assert(Graph::empty().skipped.to_multiset().len() == 0);
            assert(Graph::empty().bag() =~= Multiset::empty());
            assert(b@.bag() =~= ref_views(roots@).to_multiset());
            assert(wanted_bag(b@.status, 0) =~= Multiset::empty());
            assert(b@.accounts_for(ref_views(roots@)));
        }
        loop
            invariant
                b.wf(),
                names@.len() == cat.len(),
                offers@.len() == cat.len(),
                forall|j: int| 0 <= j < cat.len() ==> (#[trigger] names@[j])@ == cat[j].0@,
                forall|j: int|
                    0 <= j < cat.len() && (#[trigger] offers@[j]) is Some ==> offers@[j] == Some(
                        cat[j].1,
                    ),
                forall|j: int|
                    0 <= j < cat.len() && (#[trigger] offers@[j]) is None ==> exists|i: int|
                        0 <= i < b@.keys.len() && b@.keys[i] == cat[j].0@ && is_settled(b@.status[i]),
                forall|i: int| 0 <= i < b@.status.len() ==> !(#[trigger] b@.status[i] is InFlight),
                b@.holds(ref_views(roots@)),
                b@.closed(),
                b@.answers_from(cat),
                b@.skips_known(),
                b@.keys.len() + b@.skipped.len() == roots@.len() + wanted_total(
                    b@.status,
                    b@.status.len(),
                ),
                b@.accounts_for(ref_views(roots@)),
                b@.flags(ref_views(roots@)),
                b@.keys.len() + remaining(offers@, offers@.len()) <= cap,
            ensures
                b.wf(),
                b@.finished(),
                b@.holds(ref_views(roots@)),
                b@.closed(),
                b@.answers_from(cat),
                b@.skips_known(),
                b@.keys.len() + b@.skipped.len() == roots@.len() + wanted_total(
                    b@.status,
                    b@.status.len(),
                ),
                b@.accounts_for(ref_views(roots@)),
                b@.flags(ref_views(roots@)),
            decreases cap - settled(b@.status, b@.status.len()),
        {
            let ghost g0 = b@;
            let ghost held = offers@;
            proof {
                lemma_leading_settled(g0.status);
            }
            let request = b.next_request();
            let key = match request {
                Some(key) => key,
                None => {
                    break ;
                },
            };
            let ghost i = g0.first_pending();
            // The first entry of the catalogue with the key of the project.
            let mut j: usize = 0;
            while j < names.len() && !names[j].same(&key)
                invariant
                    j <= names.len(),
                    names@.len() == cat.len(),
                    forall|k: int| 0 <= k < cat.len() ==> (#[trigger] names@[k])@ == cat[k].0@,
                    forall|k: int| 0 <= k < j ==> cat[k].0@ != key@,
                decreases names.len() - j,
            {
                j = j + 1;
            }
            proof {
                lemma_offered_at(cat, key@, j as int);
            }
            let answer: Option<VersionDescriptor> = if j < names.len() {
                proof {
                    // The version of this entry was not handed out before:
                    // the project was pending until now.
                    if offers@[j as int] is None {
                        let at = choose|at: int|
                            0 <= at < g0.keys.len() && g0.keys[at] == cat[j as int].0@ && is_settled(
                                g0.status[at],
                            );
                        assert(at == i);
                    }
                }
                offers.push(None);
                let taken = offers.swap_remove(j);
                proof {
                    assert(offers@ =~= held.update(j as int, None));
                    lemma_remaining_taken(held, offers@, j as int, held.len());
                }
                taken
            } else {
                None
            };
            proof {
                lemma_answer_step(g0, i, answer);
                let g1 = g0.with_status(i, Status::InFlight);
                assert(g1.keys == g0.keys && g1.roots == g0.roots);
                assert(g1.holds(ref_views(roots@)));
                assert(g1.flags(ref_views(roots@)));
                lemma_answer_flags(g1, ref_views(roots@), key@, answer);
            }
            b.on_resolved(&key, answer);
            proof {
                broadcast use vstd::multiset::group_multiset_axioms;

                let g2 = b@;
                let more = wanted_by(g2.status[i]).to_multiset();
                assert(g2.bag() =~= g0.bag().add(more));
                assert(wanted_bag(g2.status, g2.status.len()) =~= wanted_bag(
                    g0.status,
                    g0.status.len(),
                ).add(more));
                assert(g2.accounts_for(ref_views(roots@)));
                assert forall|m: int| 0 <= m < cat.len() && (#[trigger] offers@[m]) is None implies exists|
                    n: int,
                | 0 <= n < g2.keys.len() && g2.keys[n] == cat[m].0@ && is_settled(g2.status[n]) by {
                    if held[m] is None {
                        let n = choose|n: int|
                            0 <= n < g0.keys.len() && g0.keys[n] == cat[m].0@ && is_settled(g0.status[n]);
                        assert(n != i);
                        assert(g2.keys[n] == cat[m].0@ && is_settled(g2.status[n]));
                    } else {
                        assert(m == j);
                        assert(g2.keys[i] == cat[m].0@ && is_settled(g2.status[i]));
                    }
                }
                assert forall|r: int| 0 <= r < ref_views(roots@).len() implies g2.keys.contains(
                    #[trigger] ref_views(roots@)[r],
                ) by {
                    let n = choose|n: int| 0 <= n < g0.keys.len() && g0.keys[n] == ref_views(roots@)[r];
                    assert(g2.keys[n] == ref_views(roots@)[r]);
                }
                assert forall|n: int, m: int|
                    0 <= n < g2.status.len() && 0 <= m < wanted_by(g2.status[n]).len() implies g2.keys.contains(
                    #[trigger] wanted_by(g2.status[n])[m],
                ) by {
                    if n < g0.keys.len() && n != i {
                        assert(g2.status[n] == g0.status[n]);
                        let wanted = wanted_by(g0.status[n])[m];
                        assert(g0.keys.contains(wanted));
                        let w = choose|w: int| 0 <= w < g0.keys.len() && g0.keys[w] == wanted;
                        assert(g2.keys[w] == wanted);
                    }
                }
                assert forall|n: int| 0 <= n < g2.status.len() implies match #[trigger] g2.status[n] {
                    Status::Resolved { descriptor } => offered(cat, g2.keys[n]) == Some(descriptor),
                    Status::Pruned => offered(cat, g2.keys[n]) is None,
                    _ => true,
                } by {
                    if n < g0.keys.len() && n != i {
                        assert(g2.status[n] == g0.status[n]);
                    }
                }
            }
        }
        proof {
            assert(b@.answers_from(catalogue@));
        }
        b
    }
}

} // verus!
