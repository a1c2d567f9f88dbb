//! The executable model of the ambient state a plan reads and mutates: the
//! file tree, the scripted outcomes of external command invocations, and the
//! record of invocations attempted so far.
//!
//! A `World` value stands for everything outside the engine that a plan
//! touches. Holding it as a value is what lets the whole orchestration
//! algorithm be verified: every apply and revert states exactly how it changes
//! the world.
use vstd::prelude::*;

use crate::model::{covered, prune, CmdOutcomeV, NodeV, RunV, WorldV};

verus! {

/// One entry of the file tree: a directory, or a file with its content.
pub enum FsNode {
    Dir,
    File(String),
}

impl View for FsNode {
    type V = NodeV;

    open spec fn view(&self) -> NodeV {
        match self {
            FsNode::Dir => NodeV::Dir,
            FsNode::File(c) => NodeV::File(c@),
        }
    }
}

impl FsNode {
    /// A structural copy with the same view.
    pub fn dup(&self) -> (r: FsNode)
        ensures
            r@ == self@,
    {
        match self {
            FsNode::Dir => FsNode::Dir,
            FsNode::File(c) => FsNode::File(c.clone()),
        }
    }
}

/// The outcome of one external command invocation: the process could not be
/// launched, or it finished with an exit code (absent when terminated by a
/// signal) and captured standard-error text.
pub enum CmdOutcome {
    LaunchFailure(String),
    Finished(Option<i32>, String),
}

impl View for CmdOutcome {
    type V = CmdOutcomeV;

    open spec fn view(&self) -> CmdOutcomeV {
        match self {
            CmdOutcome::LaunchFailure(m) => CmdOutcomeV::LaunchFailure(m@),
            CmdOutcome::Finished(code, stderr) => CmdOutcomeV::Finished(
                match code {
                    Option::Some(c) => Option::Some(*c as int),
                    Option::None => Option::None,
                },
                stderr@,
            ),
        }
    }
}

impl CmdOutcome {
    /// A structural copy with the same view.
    pub fn dup(&self) -> (r: CmdOutcome)
        ensures
            r@ == self@,
    {
        match self {
            CmdOutcome::LaunchFailure(m) => CmdOutcome::LaunchFailure(m.clone()),
            CmdOutcome::Finished(code, stderr) => CmdOutcome::Finished(*code, stderr.clone()),
        }
    }
}

/// The record of one attempted command invocation.
pub struct RunRecord {
    pub program: String,
    pub args: Vec<String>,
    pub working_dir: Option<String>,
}

impl View for RunRecord {
    type V = RunV;

    open spec fn view(&self) -> RunV {
        RunV {
            program: self.program@,
            args: Seq::new(self.args@.len(), |i: int| self.args@[i]@),
            working_dir: match self.working_dir {
                Option::Some(d) => Option::Some(d@),
                Option::None => Option::None,
            },
        }
    }
}

/// The file tree an entry list stands for: later entries shadow nothing
/// because a well-formed world keeps its paths unique.
pub open spec fn fs_map(s: Seq<(String, FsNode)>) -> Map<Seq<char>, NodeV>
    decreases s.len(),
{
    if s.len() == 0 {
        Map::empty()
    } else {
        fs_map(s.drop_last()).insert(s.last().0@, s.last().1@)
    }
}

/// Unique paths in an entry list.
pub open spec fn entries_unique(s: Seq<(String, FsNode)>) -> bool {
    forall|i: int, j: int| 0 <= i < j < s.len() ==> s[i].0@ != s[j].0@
}

pub proof fn lemma_fs_map_contains(s: Seq<(String, FsNode)>, k: Seq<char>)
    ensures
        fs_map(s).contains_key(k) <==> exists|i: int| 0 <= i < s.len() && s[i].0@ == k,
    decreases s.len(),
{
    if s.len() > 0 {
        lemma_fs_map_contains(s.drop_last(), k);
        if s.last().0@ == k {
            assert(s[s.len() - 1].0@ == k);
        } else if fs_map(s).contains_key(k) {
            let i = choose|i: int| 0 <= i < s.drop_last().len() && s.drop_last()[i].0@ == k;
            assert(s[i].0@ == k);
        } else if exists|i: int| 0 <= i < s.len() && s[i].0@ == k {
            let i = choose|i: int| 0 <= i < s.len() && s[i].0@ == k;
            assert(s.drop_last()[i].0@ == k);
        }
    }
}

pub proof fn lemma_fs_map_at(s: Seq<(String, FsNode)>, i: int)
    requires
        entries_unique(s),
        0 <= i < s.len(),
    ensures
        fs_map(s).contains_key(s[i].0@),
        fs_map(s)[s[i].0@] == s[i].1@,
    decreases s.len(),
{
    if i == s.len() - 1 {
    } else {
        assert(entries_unique(s.drop_last())) by {
            assert(forall|x: int, y: int|
                0 <= x < y < s.drop_last().len() ==> s.drop_last()[x].0@ != s.drop_last()[y].0@)
                by {
                assert(forall|x: int, y: int| 0 <= x < y < s.len() - 1 ==> s[x].0@ != s[y].0@);
            }
        }
        lemma_fs_map_at(s.drop_last(), i);
        assert(s.drop_last()[i] == s[i]);
        assert(s[i].0@ != s.last().0@);
    }
}

/// The ambient state: file tree entries, the script of outcomes for future
/// command invocations, the cursor into that script, and the record of
/// invocations attempted so far.
pub struct World {
    entries: Vec<(String, FsNode)>,
    script: Vec<CmdOutcome>,
    cursor: usize,
    runs: Vec<RunRecord>,
}

impl View for World {
    type V = WorldV;

    closed spec fn view(&self) -> WorldV {
        WorldV {
            fs: fs_map(self.entries@),
            pending: Seq::new(
                (self.script@.len() - self.cursor) as nat,
                |i: int| self.script@[self.cursor + i]@,
            ),
            runs: Seq::new(self.runs@.len(), |i: int| self.runs@[i]@),
        }
    }
}

impl World {
    /// Well-formed: paths unique, cursor within the script.
    pub closed spec fn wf(&self) -> bool {
        entries_unique(self.entries@) && self.cursor <= self.script@.len()
    }

    /// A fresh world: empty file tree, the given script of command outcomes,
    /// no invocation attempted yet.
    pub fn new(script: Vec<CmdOutcome>) -> (w: World)
        ensures
            w.wf(),
            w@.fs == Map::<Seq<char>, NodeV>::empty(),
            w@.pending.len() == script@.len(),
            forall|i: int| 0 <= i < script@.len() ==> w@.pending[i] == script@[i]@,
            w@.runs == Seq::<RunV>::empty(),
    {
        let w = World { entries: Vec::new(), script, cursor: 0, runs: Vec::new() };
        proof {
            assert(w@.runs =~= Seq::<RunV>::empty());
        }
        w
    }

    /// The index of the entry at `path`, when there is one.
    fn find_index(&self, path: &String) -> (r: Option<usize>)
        requires
            self.wf(),
        ensures
            match r {
                Option::Some(i) => i < self.entries@.len() && self.entries@[i as int].0@ == path@,
                Option::None => forall|i: int|
                    0 <= i < self.entries@.len() ==> self.entries@[i].0@ != path@,
            },
    {
        let mut i: usize = 0;
        while i < self.entries.len()
            invariant
                i <= self.entries@.len(),
                forall|j: int| 0 <= j < i ==> self.entries@[j].0@ != path@,
            decreases self.entries@.len() - i,
        {
            if self.entries[i].0 == *path {
                return Option::Some(i);
            }
            i = i + 1;
        }
        Option::None
    }

    /// The node at `path`, when the tree holds one.
    pub fn node_at(&self, path: &String) -> (r: Option<&FsNode>)
        requires
            self.wf(),
        ensures
            match r {
                Option::Some(n) => self@.fs.contains_key(path@) && n@ == self@.fs[path@],
                Option::None => !self@.fs.contains_key(path@),
            },
    {
        proof {
            lemma_fs_map_contains(self.entries@, path@);
        }
        match self.find_index(path) {
            Option::Some(i) => {
                proof {
                    lemma_fs_map_at(self.entries@, i as int);
                }
                Option::Some(&self.entries[i].1)
            },
            Option::None => Option::None,
        }
    }

    /// Adds a node at an absent path.
    pub fn insert_node(&mut self, path: &String, node: FsNode)
        requires
            old(self).wf(),
            !old(self)@.fs.contains_key(path@),
        ensures
            final(self).wf(),
            final(self)@.fs == old(self)@.fs.insert(path@, node@),
            final(self)@.pending == old(self)@.pending,
            final(self)@.runs == old(self)@.runs,
    {
        proof {
            lemma_fs_map_contains(self.entries@, path@);
        }
        let ghost before = self.entries@;
        let ghost nv = node@;
        self.entries.push((path.clone(), node));
        proof {
            assert(self.entries@.drop_last() =~= before);
            assert(self.entries@.last().0@ == path@);
            assert(self.entries@.last().1@ == nv);
            assert(fs_map(self.entries@) == fs_map(before).insert(path@, nv));
            assert(final(self)@.pending =~= old(self)@.pending);
            assert(final(self)@.runs =~= old(self)@.runs);
        }
    }

    /// Removes every entry whose path the predicate takes: the exact path
    /// always, the entries strictly below it only when `tree` is set.
    fn remove_paths(&mut self, path: &String, tree: bool)
        requires
            old(self).wf(),
        ensures
            final(self).wf(),
            tree ==> final(self)@.fs == prune(old(self)@.fs, path@),
            !tree ==> final(self)@.fs == old(self)@.fs.remove(path@),
            final(self)@.pending == old(self)@.pending,
            final(self)@.runs == old(self)@.runs,
    {
        let ghost orig = self.entries@;
        let mut kept: Vec<(String, FsNode)> = Vec::new();
        let mut i: usize = 0;
        while i < self.entries.len()
            invariant
                self.wf(),
                self.entries@ == orig,
                i <= orig.len(),
                entries_unique(kept@),
                forall|k: Seq<char>|
                    #[trigger] fs_map(kept@).contains_key(k) <==> exists|j: int|
                        0 <= j < i && orig[j].0@ == k && !(k == path@ || (tree && covered(
                            path@,
                            k,
                        ))),
                forall|j: int|
                    0 <= j < i && !(orig[j].0@ == path@ || (tree && covered(path@, orig[j].0@)))
                        ==> fs_map(kept@).contains_key(orig[j].0@) && fs_map(kept@)[orig[j].0@]
                        == orig[j].1@,
            decreases orig.len() - i,
        {
            let keep = if self.entries[i].0 == *path {
                false
            } else if tree {
                !path_covered(path, &self.entries[i].0)
            } else {
                true
            };
            let ghost kept_before = kept@;
            let ghost ki = orig[i as int].0@;
            if keep {
                kept.push((self.entries[i].0.clone(), self.entries[i].1.dup()));
                proof {
                    assert(kept@.drop_last() =~= kept_before);
                    assert(fs_map(kept@) == fs_map(kept_before).insert(ki, orig[i as int].1@));
                    assert(forall|x: int|
                        0 <= x < kept_before.len() ==> kept_before[x] == kept@[x]);
                    assert(!fs_map(kept_before).contains_key(ki)) by {
                        lemma_fs_map_contains(kept_before, ki);
                        if exists|j: int|
                            0 <= j < kept_before.len() && kept_before[j].0@ == ki {
                            let j = choose|j: int|
                                0 <= j < kept_before.len() && kept_before[j].0@ == ki;
                            let jj = choose|jj: int|
                                0 <= jj < i && orig[jj].0@ == kept_before[j].0@ && !(
                                kept_before[j].0@ == path@ || (tree && covered(
                                    path@,
                                    kept_before[j].0@,
                                )));
                            assert(orig[jj].0@ == orig[i as int].0@);
                        }
                    }
                    assert(entries_unique(kept@)) by {
                        lemma_fs_map_contains(kept_before, ki);
                    }
                }
            }
            i = i + 1;
        }
        self.entries = kept;
        proof {
            lemma_fs_map_contains(orig, path@);
            if tree {
                assert(fs_map(self.entries@) =~= prune(fs_map(orig), path@)) by {
                    assert forall|k: Seq<char>| #[trigger]
                        prune(fs_map(orig), path@).contains_key(k) implies fs_map(
                        self.entries@,
                    ).contains_key(k) && fs_map(self.entries@)[k] == prune(fs_map(orig), path@)[k]
                    by {
                        lemma_fs_map_contains(orig, k);
                        let j = choose|j: int| 0 <= j < orig.len() && orig[j].0@ == k;
                        lemma_fs_map_at(orig, j);
                    }
                    assert forall|k: Seq<char>| #[trigger]
                        fs_map(self.entries@).contains_key(k) implies prune(
                        fs_map(orig),
                        path@,
                    ).contains_key(k) by {
                        let j = choose|j: int|
                            0 <= j < orig.len() && orig[j].0@ == k && !(k == path@ || (tree
                                && covered(path@, k)));
                        lemma_fs_map_contains(orig, k);
                    }
                }
            } else {
                assert(fs_map(self.entries@) =~= fs_map(orig).remove(path@)) by {
                    assert forall|k: Seq<char>| #[trigger]
                        fs_map(orig).remove(path@).contains_key(k) implies fs_map(
                        self.entries@,
                    ).contains_key(k) && fs_map(self.entries@)[k] == fs_map(orig).remove(path@)[k]
                    by {
                        lemma_fs_map_contains(orig, k);
                        let j = choose|j: int| 0 <= j < orig.len() && orig[j].0@ == k;
                        lemma_fs_map_at(orig, j);
                    }
                    assert forall|k: Seq<char>| #[trigger]
                        fs_map(self.entries@).contains_key(k) implies fs_map(orig).remove(
                        path@,
                    ).contains_key(k) by {
                        let j = choose|j: int|
                            0 <= j < orig.len() && orig[j].0@ == k && !(k == path@ || (tree
                                && covered(path@, k)));
                        lemma_fs_map_contains(orig, k);
                    }
                }
            }
            assert(final(self)@.pending =~= old(self)@.pending);
            assert(final(self)@.runs =~= old(self)@.runs);
        }
    }

    /// Removes the single entry at `path`.
    pub fn remove_entry(&mut self, path: &String)
        requires
            old(self).wf(),
        ensures
            final(self).wf(),
            final(self)@.fs == old(self)@.fs.remove(path@),
            final(self)@.pending == old(self)@.pending,
            final(self)@.runs == old(self)@.runs,
    {
        self.remove_paths(path, false);
    }

    /// Removes the whole tree rooted at `path`: the entry itself and every
    /// entry strictly below it.
    pub fn remove_tree(&mut self, path: &String)
        requires
            old(self).wf(),
        ensures
            final(self).wf(),
            final(self)@.fs == prune(old(self)@.fs, path@),
            final(self)@.pending == old(self)@.pending,
            final(self)@.runs == old(self)@.runs,
    {
        self.remove_paths(path, true);
    }

    /// Records one command invocation attempt and hands out the next scripted
    /// outcome, or nothing when the script is exhausted.
    pub fn run_command(
        &mut self,
        program: &String,
        args: &Vec<String>,
        working_dir: &Option<String>,
    ) -> (r: Option<CmdOutcome>)
        requires
            old(self).wf(),
        ensures
            final(self).wf(),
            final(self)@.fs == old(self)@.fs,
            final(self)@.runs == old(self)@.runs.push(
                RunV {
                    program: program@,
                    args: Seq::new(args@.len(), |i: int| args@[i]@),
                    working_dir: match working_dir {
                        Option::Some(d) => Option::Some(d@),
                        Option::None => Option::None,
                    },
                },
            ),
            old(self)@.pending.len() == 0 ==> r is None && final(self)@.pending == old(
                self,
            )@.pending,
            old(self)@.pending.len() > 0 ==> (match r {
                Option::Some(o) => o@ == old(self)@.pending[0] && final(self)@.pending == old(
                    self,
                )@.pending.subrange(1, old(self)@.pending.len() as int),
                Option::None => false,
            }),
    {
        let record = RunRecord {
            program: program.clone(),
            args: clone_strings(args),
            working_dir: clone_opt_string(working_dir),
        };
        let ghost rv = record@;
        self.runs.push(record);
        proof {
            assert(rv =~= (RunV {
                program: program@,
                args: Seq::new(args@.len(), |i: int| args@[i]@),
                working_dir: match working_dir {
                    Option::Some(d) => Option::Some(d@),
                    Option::None => Option::None,
                },
            }));
            assert(self@.runs =~= old(self)@.runs.push(rv));
        }
        if self.cursor < self.script.len() {
            let out = self.script[self.cursor].dup();
            self.cursor = self.cursor + 1;
            proof {
                assert(self@.runs =~= old(self)@.runs.push(rv));
                assert(self@.pending =~= old(self)@.pending.subrange(
                    1,
                    old(self)@.pending.len() as int,
                ));
            }
            Option::Some(out)
        } else {
            proof {
                assert(self@.pending =~= old(self)@.pending);
            }
            Option::None
        }
    }

    /// How many command invocations have been attempted so far.
    pub fn run_count(&self) -> (n: usize)
        ensures
            n == self@.runs.len(),
    {
        self.runs.len()
    }

    /// How many scripted command outcomes remain unconsumed.
    pub fn pending_count(&self) -> (n: usize)
        requires
            self.wf(),
        ensures
            n == self@.pending.len(),
    {
        self.script.len() - self.cursor
    }
}

/// Does `k` lie strictly below the tree rooted at `root`, or equal it?
fn path_covered(root: &String, k: &String) -> (b: bool)
    ensures
        b == covered(root@, k@),
{
    if *k == *root {
        return true;
    }
    let rs = root.as_str();
    let ks = k.as_str();
    let rn = rs.unicode_len();
    let kn = ks.unicode_len();
    if kn <= rn {
        proof {
            if covered(root@, k@) {
                assert(k@ == root@);
                assert(k@.len() == root@.len());
            }
        }
        return false;
    }
    if ks.get_char(rn) != '/' {
        return false;
    }
    let mut i: usize = 0;
    while i < rn
        invariant
            i <= rn,
            rs@ == root@,
            ks@ == k@,
            rn == root@.len(),
            kn == k@.len(),
            rn < kn,
            forall|j: int| 0 <= j < i ==> k@[j] == root@[j],
        decreases rn - i,
    {
        if ks.get_char(i) != rs.get_char(i) {
            proof {
                assert(k@.subrange(0, root@.len() as int)[i as int] != root@[i as int]);
            }
            return false;
        }
        i = i + 1;
    }
    proof {
        assert(k@.subrange(0, root@.len() as int) =~= root@);
    }
    true
}

/// A structural copy of a string list, element views kept.
pub fn clone_strings(v: &Vec<String>) -> (r: Vec<String>)
    ensures
        r@.len() == v@.len(),
        forall|i: int| 0 <= i < v@.len() ==> r@[i]@ == v@[i]@,
{
    let mut r: Vec<String> = Vec::new();
    let mut i: usize = 0;
    while i < v.len()
        invariant
            i <= v@.len(),
            r@.len() == i,
            forall|j: int| 0 <= j < i ==> r@[j]@ == v@[j]@,
        decreases v@.len() - i,
    {
        r.push(v[i].clone());
        i = i + 1;
    }
    r
}

/// A structural copy of an optional string, view kept.
pub fn clone_opt_string(v: &Option<String>) -> (r: Option<String>)
    ensures
        match v {
            Option::Some(d) => r matches Option::Some(rd) && rd@ == d@,
            Option::None => r is None,
        },
{
    match v {
        Option::Some(d) => Option::Some(d.clone()),
        Option::None => Option::None,
    }
}

} // verus!
