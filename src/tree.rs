//! Relocation and copy of a directory tree, file by file, depth first.
use crate::error::Error;
use crate::lifecycle::{finishes_ok, Action, Outcome, Step};
use crate::paths::{join_path, spec_join_path};
use vstd::prelude::*;

verus! {

/// A walk over a directory tree that renames (or copies) every file of `from`
/// to the same place under `to`, creating the directories of `to` as their
/// sources are found.
#[derive(Debug)]
pub struct TreeWalk {
    pub from: String,
    pub to: String,
    pub copy: bool,
    pub stage: u32,
    /// Directories still to visit, each with its destination.
    pub stack: Vec<(String, String)>,
    /// The directory being visited and its destination.
    pub current: (String, String),
    /// The entries of the directory being visited that are left.
    pub entries: Vec<(String, bool)>,
}

/// The path reached from `root` by going down through `names` in turn.
pub open spec fn descend(root: Seq<char>, names: Seq<Seq<char>>) -> Seq<char>
    decreases names.len(),
{
    if names.len() == 0 {
        root
    } else {
        spec_join_path(descend(root, names.drop_last()), names.last())
    }
}

/// `s` under `from` and `d` under `to` are reached through the same names.
pub open spec fn parallel(s: Seq<char>, d: Seq<char>, from: Seq<char>, to: Seq<char>) -> bool {
    exists|names: Seq<Seq<char>>| #[trigger] descend(from, names) == s && descend(to, names) == d
}

proof fn lemma_parallel_join(s: Seq<char>, d: Seq<char>, from: Seq<char>, to: Seq<char>, n: Seq<char>)
    requires
        parallel(s, d, from, to),
    ensures
        parallel(spec_join_path(s, n), spec_join_path(d, n), from, to),
{
    let names = choose|names: Seq<Seq<char>>| #[trigger] descend(from, names) == s && descend(to, names) == d;
    let more = names.push(n);
    assert(more.drop_last() =~= names);
    assert(descend(from, more) == spec_join_path(s, n));
    assert(descend(to, more) == spec_join_path(d, n));
}

pub open spec fn walk_wf(w: TreeWalk) -> bool {
    &&& 1 <= w.stage <= 4
    &&& forall|i: int|
        0 <= i < w.stack@.len() ==> parallel(#[trigger] w.stack@[i].0@, w.stack@[i].1@, w.from@, w.to@)
    &&& parallel(w.current.0@, w.current.1@, w.from@, w.to@)
}

impl TreeWalk {
    /// A walk that moves (or, with `copy`, copies) the tree `from` to `to`.
    pub fn new(from: &str, to: &str, copy: bool) -> (r: TreeWalk)
        ensures
            r.from@ == from@,
            r.to@ == to@,
            r.copy == copy,
            r.stage == 0,
            r.stack@.len() == 0,
            r.entries@.len() == 0,
    {
        TreeWalk {
            from: from.to_owned(),
            to: to.to_owned(),
            copy,
            stage: 0,
            stack: Vec::new(),
            current: (from.to_owned(), to.to_owned()),
            entries: Vec::new(),
        }
    }
}

fn walk_error(w: &TreeWalk, e: Error) -> (r: Error)
    ensures
        w.copy ==> r is CopyError,
        !w.copy ==> r is RenameError,
{
    let what = if w.copy { "error copying from " } else { "error moving from " };
    let mut m = what.to_owned();
    m.append(w.from.as_str());
    m.append(" to ");
    m.append(w.to.as_str());
    if w.copy {
        Error::CopyError(m)
    } else {
        Error::RenameError(m)
    }
}

pub open spec fn pair_view(p: (String, String)) -> (Seq<char>, Seq<char>) {
    (p.0@, p.1@)
}

pub open spec fn stack_view(s: Seq<(String, String)>) -> Seq<(Seq<char>, Seq<char>)> {
    s.map_values(|p: (String, String)| pair_view(p))
}

/// The pairs of directories that visiting `entries` of `cur` pushes, in order.
pub open spec fn pushed(cur: (Seq<char>, Seq<char>), entries: Seq<(String, bool)>) -> Seq<(Seq<char>, Seq<char>)> {
    entries.map_values(|e: (String, bool)| (spec_join_path(cur.0, e.0@), spec_join_path(cur.1, e.0@)))
}

/// Entry `f` is the first entry that is not a directory.
pub open spec fn first_file_at(entries: Seq<(String, bool)>, f: int) -> bool {
    0 <= f < entries.len() && !entries[f].1 && forall|j: int| 0 <= j < f ==> (#[trigger] entries[j]).1
}

pub open spec fn all_dirs(entries: Seq<(String, bool)>) -> bool {
    forall|j: int| 0 <= j < entries.len() ==> (#[trigger] entries[j]).1
}

/// What going on from the entries left does: the directories before the first
/// file are pushed, and that file is renamed (or copied) to the same name under
/// the destination; with no file left, the last pushed directory is visited
/// next; with none, the emptied source is removed (moving) or the walk ends
/// (copying).
pub open spec fn next_entry_ok(w0: TreeWalk, w1: TreeWalk, r: Step) -> bool {
    let es = w0.entries@;
    let cur = pair_view(w0.current);
    let s = stack_view(w0.stack@);
    &&& w1.from == w0.from && w1.to == w0.to && w1.copy == w0.copy
    &&& forall|f: int|
        #![trigger first_file_at(es, f)]
        first_file_at(es, f) ==> {
            let src = spec_join_path(cur.0, es[f].0@);
            let dst = spec_join_path(cur.1, es[f].0@);
            &&& r is Perform
            &&& w0.copy ==> r->Perform_0 is CopyFile && r->Perform_0->CopyFile_0@ == src && r->Perform_0->CopyFile_1@ == dst
            &&& !w0.copy ==> r->Perform_0 is Rename && r->Perform_0->Rename_0@ == src && r->Perform_0->Rename_1@ == dst
            &&& w1.stage == 1
            &&& w1.current == w0.current
            &&& w1.entries@ == es.subrange(f + 1, es.len() as int)
            &&& stack_view(w1.stack@) == s + pushed(cur, es.take(f))
        }
    &&& all_dirs(es) && (s + pushed(cur, es)).len() > 0 ==> {
        let t = s + pushed(cur, es);
        &&& r is Perform && r->Perform_0 is CreateDir && r->Perform_0->CreateDir_0@ == t.last().1
        &&& pair_view(w1.current) == t.last()
        &&& stack_view(w1.stack@) == t.drop_last()
        &&& w1.entries@.len() == 0
        &&& w1.stage == 2
    }
    &&& all_dirs(es) && (s + pushed(cur, es)).len() == 0 ==> if w0.copy {
        finishes_ok(r, Seq::empty())
    } else {
        r is Perform && r->Perform_0 is RemoveTree && r->Perform_0->RemoveTree_0 == w0.from && w1.stage == 4
    }
}

fn next_entry(w: &mut TreeWalk) -> (r: Step)
    requires
        walk_wf(*old(w)),
    ensures
        next_entry_ok(*old(w), *final(w), r),
        r is Perform ==> walk_wf(*final(w)),
        r is Perform && r->Perform_0 is Rename ==> !old(w).copy,
        r is Perform && r->Perform_0 is CopyFile ==> old(w).copy,
        r is Perform && r->Perform_0 is RemoveTree ==> !old(w).copy && r->Perform_0->RemoveTree_0 == old(w).from,
        r is Perform ==> r->Perform_0 is Rename || r->Perform_0 is CopyFile || r->Perform_0 is CreateDir
            || r->Perform_0 is RemoveTree,
        r is Perform && r->Perform_0 is Rename ==> parallel(
            r->Perform_0->Rename_0@,
            r->Perform_0->Rename_1@,
            old(w).from@,
            old(w).to@,
        ),
        r is Perform && r->Perform_0 is CopyFile ==> parallel(
            r->Perform_0->CopyFile_0@,
            r->Perform_0->CopyFile_1@,
            old(w).from@,
            old(w).to@,
        ),
        r is Perform && r->Perform_0 is CreateDir ==> parallel(
            final(w).current.0@,
            r->Perform_0->CreateDir_0@,
            old(w).from@,
            old(w).to@,
        ),
{
    let ghost es = w.entries@;
    let ghost cur = pair_view(w.current);
    let ghost s = stack_view(w.stack@);
    let ghost mut k: int = 0;
    while w.entries.len() > 0
        invariant
            walk_wf(*w),
            w.from == old(w).from,
            w.to == old(w).to,
            w.copy == old(w).copy,
            w.current == old(w).current,
            es == old(w).entries@,
            cur == pair_view(old(w).current),
            s == stack_view(old(w).stack@),
            0 <= k <= es.len(),
            w.entries@ == es.subrange(k, es.len() as int),
            forall|j: int| 0 <= j < k ==> (#[trigger] es[j]).1,
            stack_view(w.stack@) == s + pushed(cur, es.take(k)),
        decreases w.entries@.len(),
    {
        let (name, is_dir) = w.entries.remove(0);
        assert((name, is_dir) == es[k]);
        let src = join_path(w.current.0.as_str(), name.as_str());
        let dst = join_path(w.current.1.as_str(), name.as_str());
        proof {
            lemma_parallel_join(w.current.0@, w.current.1@, w.from@, w.to@, name@);
        }
        if is_dir {
            let ghost before = w.stack@;
            w.stack.push((src, dst));
            proof {
                assert(es.take(k + 1) =~= es.take(k).push(es[k]));
                assert(stack_view(w.stack@) =~= stack_view(before).push(pair_view((src, dst))));
                assert(pushed(cur, es.take(k + 1)) =~= pushed(cur, es.take(k)).push(pair_view((src, dst))));
                assert(stack_view(w.stack@) =~= s + pushed(cur, es.take(k + 1)));
                k = k + 1;
                assert(w.entries@ =~= es.subrange(k, es.len() as int));
            }
        } else {
            w.stage = 1;
            proof {
                assert(first_file_at(es, k));
                assert forall|f: int| first_file_at(es, f) implies f == k by {
                    if f < k {
                        assert(es[f].1);
                    } else if f > k {
                        assert(es[k].1);
                    }
                }
                assert(w.entries@ =~= es.subrange(k + 1, es.len() as int));
            }
            if w.copy {
                return Step::Perform(Action::CopyFile(src, dst));
            } else {
                return Step::Perform(Action::Rename(src, dst));
            }
        }
    }
    proof {
        assert(es.take(k) =~= es);
        assert forall|f: int| !first_file_at(es, f) by {
            if 0 <= f < es.len() {
                assert(es[f].1);
            }
        }
    }
    let ghost full = w.stack@;
    let popped = w.stack.pop();
    proof {
        let t = s + pushed(cur, es);
        assert(stack_view(full) == t);
        if full.len() > 0 {
            assert(stack_view(w.stack@) =~= t.drop_last());
            assert(pair_view(full.last()) == t.last());
        } else {
            assert(t.len() == 0);
        }
    }
    match popped {
        Some(next) => {
            let d = next.1.clone();
            w.current = next;
            w.stage = 2;
            Step::Perform(Action::CreateDir(d))
        },
        None => {
            if w.copy {
                Step::Finish(Ok(String::new()))
            } else {
                w.stage = 4;
                Step::Perform(Action::RemoveTree(w.from.clone()))
            }
        },
    }
}

/// The walk's answer to an outcome: the next action, or the end.
pub open spec fn walk_step_ok(w0: TreeWalk, w1: TreeWalk, outcome: Outcome, r: Step) -> bool {
    &&& w1.from == w0.from && w1.to == w0.to && w1.copy == w0.copy
    &&& r is Perform ==> walk_wf(w1)
    &&& w0.stage == 0 ==> r == Step::Perform(Action::CreateDir(w0.to)) && w1.stage == 2 && pair_view(w1.current)
        == (w0.from@, w0.to@) && w1.stack@.len() == 0 && w1.entries@.len() == 0
    &&& w0.stage != 0 && outcome is Failed ==> r is Finish && r->Finish_0 is Err && (if w0.copy {
        r->Finish_0->Err_0 is CopyError
    } else {
        r->Finish_0->Err_0 is RenameError
    })
    &&& w0.stage == 1 && !(outcome is Failed) ==> next_entry_ok(w0, w1, r)
    &&& w0.stage == 2 && !(outcome is Failed) ==> r == Step::Perform(Action::ReadDir(w0.current.0)) && w1.stage == 3
        && w1.current == w0.current && w1.stack == w0.stack
    &&& w0.stage == 3 && outcome is Entries ==> next_entry_ok(TreeWalk { entries: outcome->Entries_0, ..w0 }, w1, r)
    &&& w0.stage == 3 && !(outcome is Entries) ==> r is Finish && r->Finish_0 is Err
    &&& w0.stage == 4 && !(outcome is Failed) ==> finishes_ok(r, Seq::empty())
    &&& r is Perform && r->Perform_0 is Rename ==> !w0.copy && parallel(
        r->Perform_0->Rename_0@,
        r->Perform_0->Rename_1@,
        w0.from@,
        w0.to@,
    )
    &&& r is Perform && r->Perform_0 is CopyFile ==> w0.copy && parallel(
        r->Perform_0->CopyFile_0@,
        r->Perform_0->CopyFile_1@,
        w0.from@,
        w0.to@,
    )
    &&& r is Perform && r->Perform_0 is CreateDir && w0.stage != 0 ==> parallel(
        w1.current.0@,
        r->Perform_0->CreateDir_0@,
        w0.from@,
        w0.to@,
    )
    &&& r is Perform && r->Perform_0 is RemoveTree ==> !w0.copy && r->Perform_0->RemoveTree_0 == w0.from
}

fn walk_step(w: &mut TreeWalk, outcome: Outcome) -> (r: Step)
    requires
        old(w).stage == 0 || walk_wf(*old(w)),
    ensures
        walk_step_ok(*old(w), *final(w), outcome, r),
{
    let ghost w0 = *w;
    let ghost o = outcome;
    let stage = w.stage;
    if stage == 0 {
        w.current = (w.from.clone(), w.to.clone());
        w.stack = Vec::new();
        w.entries = Vec::new();
        w.stage = 2;
        proof {
            assert(descend(w.from@, Seq::empty()) == w.from@);
            assert(descend(w.to@, Seq::empty()) == w.to@);
        }
        return Step::Perform(Action::CreateDir(w.to.clone()));
    }
    match outcome {
        Outcome::Failed(e) => return Step::Finish(Err(walk_error(w, e))),
        Outcome::Entries(list) => {
            if stage == 3 {
                w.entries = list;
                assert(*w == (TreeWalk { entries: o->Entries_0, ..w0 }));
                return next_entry(w);
            }
        },
        _ => {},
    }
    if stage == 1 {
        next_entry(w)
    } else if stage == 2 {
        w.stage = 3;
        Step::Perform(Action::ReadDir(w.current.0.clone()))
    } else if stage == 3 {
        let e = Error::RenameError("directory could not be listed".to_owned());
        Step::Finish(Err(walk_error(w, e)))
    } else {
        Step::Finish(Ok(String::new()))
    }
}

/// Moves the tree `walk.from` to `walk.to` by renaming each file into the
/// same place under the destination, creating destination directories as
/// their sources are visited, depth first; at the end the emptied source is
/// removed. Each failure ends the walk with a rename error; what was moved
/// before stays moved.
pub fn move_by_rename(walk: &mut TreeWalk, outcome: Outcome) -> (r: Step)
    requires
        !old(walk).copy,
        old(walk).stage == 0 || walk_wf(*old(walk)),
    ensures
        walk_step_ok(*old(walk), *final(walk), outcome, r),
        r is Perform ==> !(r->Perform_0 is CopyFile),
{
    walk_step(walk, outcome)
}

/// Copies the tree `walk.from` to `walk.to`, file by file, as the move does,
/// leaving the source in place.
pub fn copy_folder(walk: &mut TreeWalk, outcome: Outcome) -> (r: Step)
    requires
        old(walk).copy,
        old(walk).stage == 0 || walk_wf(*old(walk)),
    ensures
        walk_step_ok(*old(walk), *final(walk), outcome, r),
        r is Perform ==> !(r->Perform_0 is Rename) && !(r->Perform_0 is RemoveTree),
{
    walk_step(walk, outcome)
}

} // verus!
