use vstd::prelude::*;

use crate::paths::{
    clone_path, excluded_name, excluded_path, is_excluded, mirrored, mirrored_dir, path_view,
    relative,
};
use crate::reconcile::FailureReason;

verus! {

/// What the caller is to do next in the walk.
#[derive(Debug)]
pub enum Step {
    /// No directory is left: the run is complete.
    Finished,
    /// This directory is excluded by name: it and everything below it are
    /// neither read nor mirrored.
    Excluded(Vec<String>),
    /// Make sure the destination directory (second) exists, creating it and
    /// its missing ancestors, then list the source directory (first) and hand
    /// each entry to [`SyncSession::on_entry`]. A failure to create the
    /// directory ends the run; a failure to list it skips its contents.
    Visit(Vec<String>, Vec<String>),
}

/// What the caller is to do with one entry of the directory being listed.
#[derive(Debug)]
pub enum EntryStep {
    /// The entry is a directory: it was put on the work stack.
    Descended,
    /// The entry is a file: reconcile the source file (first) with the
    /// destination file (second).
    Reconcile(Vec<String>, Vec<String>),
    /// The entry cannot be handled; the walk goes on.
    Failed(FailureReason),
}

/// The state of one run: the roots, the exclusion list, the number of
/// components of the source root, the directories still to visit, and the
/// directory being listed with its destination counterpart.
pub struct SyncSession {
    pub source_root: Vec<String>,
    pub dest_root: Vec<String>,
    pub exclusions: Vec<String>,
    pub root_depth: usize,
    pub stack: Vec<Vec<String>>,
    pub current: Option<Vec<String>>,
    pub current_dest: Vec<String>,
}

/// No component of `p` after the source root's `depth` components and before
/// the last one is an excluded name.
pub open spec fn clean(p: Seq<Seq<char>>, depth: nat, exclusions: Seq<Seq<char>>) -> bool {
    forall|j: int| depth <= j < p.len() - 1 ==> !excluded_name(#[trigger] p[j], exclusions)
}

/// No component of what follows the source root in `p` is an excluded name.
pub open spec fn relative_clean(p: Seq<Seq<char>>, depth: nat, exclusions: Seq<Seq<char>>) -> bool {
    forall|j: int|
        0 <= j < relative(p, depth).len() ==> !excluded_name(
            #[trigger] relative(p, depth)[j],
            exclusions,
        )
}

/// No component of `d` after the destination root's `root_len` components is
/// an excluded name.
pub open spec fn dest_clean(d: Seq<Seq<char>>, root_len: nat, exclusions: Seq<Seq<char>>) -> bool {
    forall|j: int| root_len <= j < d.len() ==> !excluded_name(#[trigger] d[j], exclusions)
}

impl SyncSession {
    /// The number of components of the source root.
    pub open spec fn depth(&self) -> nat {
        self.root_depth as nat
    }

    pub open spec fn root_view(&self) -> Seq<Seq<char>> {
        path_view(self.source_root@)
    }

    pub open spec fn dest_view(&self) -> Seq<Seq<char>> {
        path_view(self.dest_root@)
    }

    pub open spec fn exclusions_view(&self) -> Seq<Seq<char>> {
        path_view(self.exclusions@)
    }

    /// A directory that may stand on the work stack: the source root or
    /// below it, reached through no excluded directory.
    pub open spec fn pending(&self, p: Seq<Seq<char>>) -> bool {
        &&& p.len() >= self.depth()
        &&& p.subrange(0, self.depth() as int) == self.root_view()
        &&& clean(p, self.depth(), self.exclusions_view())
    }

    /// A directory that is to be mirrored: pending, and not excluded itself.
    pub open spec fn visitable(&self, p: Seq<Seq<char>>) -> bool {
        self.pending(p) && !excluded_path(p, self.exclusions_view())
    }

    /// The session's invariant: the depth is the source root's length, every
    /// directory on the stack is pending, and the directory being listed is
    /// visitable and paired with its mirror.
    pub open spec fn wf(&self) -> bool {
        &&& self.root_depth == self.source_root@.len()
        &&& forall|i: int|
            0 <= i < self.stack@.len() ==> self.pending(path_view(#[trigger] self.stack@[i]@))
        &&& self.current matches Some(c) ==> {
            &&& self.visitable(path_view(c@))
            &&& path_view(self.current_dest@) == mirrored(
                self.dest_view(),
                path_view(c@),
                self.depth(),
            )
        }
    }

    /// The roots and the exclusion list of `self` and `other` are the same.
    pub open spec fn same_run(&self, other: &SyncSession) -> bool {
        &&& self.source_root@ == other.source_root@
        &&& self.dest_root@ == other.dest_root@
        &&& self.exclusions@ == other.exclusions@
        &&& self.root_depth == other.root_depth
    }

    proof fn lemma_visitable_relative_clean(&self, p: Seq<Seq<char>>)
        requires
            self.visitable(p),
        ensures
            relative_clean(p, self.depth(), self.exclusions_view()),
            dest_clean(
                mirrored(self.dest_view(), p, self.depth()),
                self.dest_view().len(),
                self.exclusions_view(),
            ),
    {
        let rel = relative(p, self.depth());
        assert forall|j: int| 0 <= j < rel.len() implies !excluded_name(
            #[trigger] rel[j],
            self.exclusions_view(),
        ) by {
            assert(rel[j] == p[self.depth() + j]);
        }
        let m = mirrored(self.dest_view(), p, self.depth());
        assert forall|j: int| self.dest_view().len() <= j < m.len() implies !excluded_name(
            #[trigger] m[j],
            self.exclusions_view(),
        ) by {
            assert(m[j] == rel[j - self.dest_view().len()]);
        }
    }

    /// Starts a run that mirrors `source_root` into `dest_root`, leaving out
    /// every directory whose name is in `exclusions`. Only the source root is
    /// on the work stack.
    pub fn new(source_root: Vec<String>, dest_root: Vec<String>, exclusions: Vec<String>) -> (r: SyncSession)
        ensures
            r.wf(),
            r.source_root@ == source_root@,
            r.dest_root@ == dest_root@,
            r.exclusions@ == exclusions@,
            r.root_depth == source_root@.len(),
            r.stack@.len() == 1,
            r.stack@[0]@ == source_root@,
            r.current is None,
    {
        let depth = source_root.len();
        let first = clone_path(&source_root);
        let mut stack: Vec<Vec<String>> = Vec::new();
        stack.push(first);
        let r = SyncSession {
            source_root,
            dest_root,
            exclusions,
            root_depth: depth,
            stack,
            current: None,
            current_dest: Vec::new(),
        };
        assert(path_view(r.stack@[0]@).subrange(0, r.depth() as int) =~= r.root_view());
        r
    }

    /// Takes the next directory off the work stack. An excluded one is
    /// reported and dropped with everything below it; any other is to be
    /// visited, with the destination directory that mirrors it.
    pub fn next_step(&mut self) -> (r: Step)
        requires
            old(self).wf(),
        ensures
            final(self).wf(),
            final(self).same_run(old(self)),
            old(self).stack@.len() == 0 ==> r is Finished && final(self).stack@ == old(
                self,
            ).stack@,
            old(self).stack@.len() > 0 ==> final(self).stack@ == old(self).stack@.drop_last(),
            match r {
                Step::Finished => old(self).stack@.len() == 0 && final(self).current is None,
                Step::Excluded(p) => {
                    &&& old(self).stack@.len() > 0
                    &&& p@ == old(self).stack@.last()@
                    &&& excluded_path(path_view(p@), old(self).exclusions_view())
                    &&& final(self).current is None
                },
                Step::Visit(src, dst) => {
                    &&& old(self).stack@.len() > 0
                    &&& src@ == old(self).stack@.last()@
                    &&& !excluded_path(path_view(src@), old(self).exclusions_view())
                    &&& relative_clean(
                        path_view(src@),
                        old(self).depth(),
                        old(self).exclusions_view(),
                    )
                    &&& path_view(dst@) == mirrored(
                        old(self).dest_view(),
                        path_view(src@),
                        old(self).depth(),
                    )
                    &&& dest_clean(
                        path_view(dst@),
                        old(self).dest_view().len(),
                        old(self).exclusions_view(),
                    )
                    &&& final(self).current is Some
                    &&& final(self).current->0@ == src@
                    &&& final(self).current_dest@ == dst@
                },
            },
    {
        match self.stack.pop() {
            None => {
                self.current = None;
                Step::Finished
            },
            Some(p) => {
                proof {
                    assert(old(self).stack@[old(self).stack@.len() - 1] == p);
                }
                if is_excluded(&p, &self.exclusions) {
                    self.current = None;
                    Step::Excluded(p)
                } else {
                    let d = mirrored_dir(&self.dest_root, &p, self.root_depth);
                    proof {
                        self.lemma_visitable_relative_clean(path_view(p@));
                    }
                    self.current = Some(clone_path(&p));
                    self.current_dest = clone_path(&d);
                    Step::Visit(p, d)
                }
            },
        }
    }

    proof fn lemma_child(&self, c: Seq<Seq<char>>, name: Seq<char>)
        requires
            self.visitable(c),
        ensures
            self.pending(c.push(name)),
            mirrored(self.dest_view(), c.push(name), self.depth()) == mirrored(
                self.dest_view(),
                c,
                self.depth(),
            ).push(name),
    {
        let p = c.push(name);
        assert(p.subrange(0, self.depth() as int) =~= c.subrange(0, self.depth() as int));
        assert forall|j: int| self.depth() <= j < p.len() - 1 implies !excluded_name(
            #[trigger] p[j],
            self.exclusions_view(),
        ) by {
            assert(p[j] == c[j]);
        }
        assert(relative(p, self.depth()) =~= relative(c, self.depth()).push(name));
        assert(mirrored(self.dest_view(), p, self.depth()) =~= mirrored(
            self.dest_view(),
            c,
            self.depth(),
        ).push(name));
    }

    /// Handles one entry of the directory being listed, named `name` (`None`
    /// where no final name can be had). A directory is put on the work stack;
    /// a file is paired with the file of the same name in the mirrored
    /// destination directory.
    pub fn on_entry(&mut self, name: Option<String>, is_dir: bool) -> (r: EntryStep)
        requires
            old(self).wf(),
            old(self).current is Some,
        ensures
            final(self).wf(),
            final(self).same_run(old(self)),
            final(self).current == old(self).current,
            final(self).current_dest == old(self).current_dest,
            match name {
                None => {
                    &&& r == EntryStep::Failed(FailureReason::NoFileName)
                    &&& final(self).stack@ == old(self).stack@
                },
                Some(n) => if is_dir {
                    &&& r is Descended
                    &&& final(self).stack@.len() == old(self).stack@.len() + 1
                    &&& final(self).stack@.drop_last() == old(self).stack@
                    &&& final(self).stack@.last()@ == old(self).current->0@.push(n)
                } else {
                    match r {
                        EntryStep::Reconcile(src, dst) => {
                            &&& src@ == old(self).current->0@.push(n)
                            &&& path_view(dst@) == mirrored(
                                old(self).dest_view(),
                                path_view(src@),
                                old(self).depth(),
                            )
                            &&& dest_clean(
                                path_view(dst@).drop_last(),
                                old(self).dest_view().len(),
                                old(self).exclusions_view(),
                            )
                            &&& final(self).stack@ == old(self).stack@
                        },
                        _ => false,
                    }
                },
            },
    {
        let ghost cur = self.current->0@;
        match name {
            None => EntryStep::Failed(FailureReason::NoFileName),
            Some(n) => {
                let mut child = clone_path(self.current.as_ref().unwrap());
                proof {
                    self.lemma_child(path_view(cur), n@);
                    self.lemma_visitable_relative_clean(path_view(cur));
                }
                if is_dir {
                    child.push(n);
                    proof {
                        assert(path_view(child@) =~= path_view(cur).push(n@));
                    }
                    self.stack.push(child);
                    proof {
                        assert(self.stack@.drop_last() =~= old(self).stack@);
                    }
                    EntryStep::Descended
                } else {
                    let mut dst = clone_path(&self.current_dest);
                    child.push(n.clone());
                    dst.push(n);
                    proof {
                        assert(path_view(child@) =~= path_view(cur).push(n@));
                        assert(path_view(dst@) =~= path_view(self.current_dest@).push(n@));
                        assert(path_view(dst@).drop_last() =~= path_view(self.current_dest@));
                    }
                    EntryStep::Reconcile(child, dst)
                }
            },
        }
    }
}

} // verus!
