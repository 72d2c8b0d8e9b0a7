//! A depth-first walk of one root, as a state machine: it asks its caller to
//! read a file or list a directory, one at a time, and is told what came back.
//!
//! What a path is (file, directory, neither) is whatever the caller reports,
//! so symbolic links are followed as the caller follows them; a cycle of
//! linked directories under a recursive walk does not end.
use vstd::prelude::*;
use crate::exclude::{ExclusionSet, is_plain_name, should_exclude};
use crate::lines::{CountRule, count_text_lines, line_count};
use crate::model::{WalkModel, is_excluded};

verus! {

/// What a path turned out to be when it was looked at.
#[derive(Clone, Copy, Debug, PartialEq, Eq, Structural)]
pub enum EntryKind {
    File,
    Dir,
    /// Neither a regular file nor a directory.
    Other,
}

/// The fixed configuration of a walk.
pub struct WalkConfig {
    pub recursive: bool,
    pub excluded: ExclusionSet,
    pub rule: CountRule,
}

impl WalkConfig {
    pub open spec fn model(&self) -> WalkModel {
        WalkModel { recursive: self.recursive, excluded: self.excluded@, rule: self.rule }
    }
}

/// One entry of a listed directory: where it is, its base name (`None` where
/// the name is not valid Unicode), and what it is.
pub struct Entry<P> {
    pub path: P,
    pub name: Option<String>,
    pub kind: EntryKind,
}

/// A file or directory that the walk has still to visit.
pub struct Task<P> {
    pub path: P,
    pub is_dir: bool,
}

/// Why a root yields no count; `E` is the caller's I/O error.
pub enum RootError<E> {
    /// The root is neither a regular file nor a directory.
    NotFound,
    /// The root could not be read or listed.
    Io(E),
}

/// A diagnostic, handed to the caller as soon as the walk decides it.
pub enum Notice<P, E> {
    /// The path was skipped because its name is excluded.
    Skipped(P),
    /// A file inside the walk could not be read; it counts zero.
    FileFailed(P, E),
    /// A directory inside the walk could not be listed; it counts zero.
    DirFailed(P, E),
    /// An entry inside the walk is neither a regular file nor a directory.
    NotFound(P),
}

/// What the walk needs next.
pub enum Request<P> {
    ReadFile(P),
    ListDir(P),
    /// Nothing is left to visit.
    Finished,
}

/// The state of a walk, as the contracts speak of it.
pub struct WalkView<P, E> {
    /// The tasks still to visit, bottom of the stack first.
    pub pending: Seq<Task<P>>,
    pub total: nat,
    /// Whether the next answer is about the root itself.
    pub in_root: bool,
    pub failure: Option<RootError<E>>,
}

/// A walk of one root.
pub struct Walker<P, E> {
    config: WalkConfig,
    pending: Vec<Task<P>>,
    total: usize,
    in_root: bool,
    failure: Option<RootError<E>>,
}

/// The base name of an entry, as the contracts see it.
pub open spec fn name_view(name: Option<String>) -> Option<Seq<char>> {
    match name {
        Some(s) => Some(s@),
        None => None,
    }
}

/// `a + b`, held at `usize::MAX`.
pub open spec fn sat_add(a: nat, b: nat) -> nat {
    if a + b > usize::MAX {
        usize::MAX as nat
    } else {
        a + b
    }
}

/// Whether a listed entry is visited: it is not excluded, and it is a file,
/// or a directory of a recursive walk.
pub open spec fn is_visited(name: Option<Seq<char>>, kind: EntryKind, cfg: WalkModel) -> bool {
    !is_excluded(name, cfg.excluded) && (kind == EntryKind::File || (kind == EntryKind::Dir
        && cfg.recursive))
}

/// Whether a listed entry gives a diagnostic: it is excluded, or it is
/// neither a file nor a directory.
pub open spec fn is_reported(name: Option<Seq<char>>, kind: EntryKind, cfg: WalkModel) -> bool {
    is_excluded(name, cfg.excluded) || kind == EntryKind::Other
}

/// The tasks that a listing adds to the stack, last entry first, so that the
/// entries are visited in the order listed.
pub open spec fn new_tasks<P>(es: Seq<Entry<P>>, cfg: WalkModel) -> Seq<Task<P>>
    decreases es.len(),
{
    if es.len() == 0 {
        Seq::empty()
    } else {
        let e = es.last();
        let rest = new_tasks(es.drop_last(), cfg);
        if is_visited(name_view(e.name), e.kind, cfg) {
            seq![Task { path: e.path, is_dir: e.kind == EntryKind::Dir }] + rest
        } else {
            rest
        }
    }
}

/// How many diagnostics a listing gives.
pub open spec fn listing_notices<P>(es: Seq<Entry<P>>, cfg: WalkModel) -> nat
    decreases es.len(),
{
    if es.len() == 0 {
        0
    } else {
        let e = es.last();
        listing_notices(es.drop_last(), cfg) + if is_reported(name_view(e.name), e.kind, cfg) {
            1nat
        } else {
            0nat
        }
    }
}

impl<P, E> Walker<P, E> {
    pub closed spec fn view(&self) -> WalkView<P, E> {
        WalkView {
            pending: self.pending@,
            total: self.total as nat,
            in_root: self.in_root,
            failure: self.failure,
        }
    }

    pub closed spec fn config_model(&self) -> WalkModel {
        self.config.model()
    }

    /// Begins a walk of the root at `root_path`, which is `root` to the
    /// caller and was found to be of kind `kind`. An excluded root is skipped
    /// with a diagnostic; a root of neither kind fails with `NotFound`.
    pub fn start(root_path: &str, root: P, kind: EntryKind, config: WalkConfig) -> (r: (
        Walker<P, E>,
        Vec<Notice<P, E>>,
    ))
        ensures
            r.0.config_model() == config.model(),
            r.0@.total == 0,
            r.0@.in_root,
            is_plain_name(root_path@) ==> (r.1@.len() > 0 <==> config.excluded@.contains(root_path@)),
            r.1@.len() > 0 ==> r.1@ == seq![Notice::<P, E>::Skipped(root)],
            r.1@.len() > 0 ==> r.0@.pending.len() == 0 && r.0@.failure is None,
            r.1@.len() == 0 ==> match kind {
                EntryKind::File => r.0@.pending == seq![(Task { path: root, is_dir: false })] && r.0@.failure is None,
                EntryKind::Dir => r.0@.pending == seq![(Task { path: root, is_dir: true })] && r.0@.failure is None,
                EntryKind::Other => r.0@.pending.len() == 0 && r.0@.failure matches Some(
                    RootError::NotFound,
                ),
            },
    {
        let mut notices: Vec<Notice<P, E>> = Vec::new();
        let mut pending: Vec<Task<P>> = Vec::new();
        let mut failure: Option<RootError<E>> = None;
        if should_exclude(root_path, &config.excluded) {
            notices.push(Notice::Skipped(root));
        } else {
            match kind {
                EntryKind::File => pending.push(Task { path: root, is_dir: false }),
                EntryKind::Dir => pending.push(Task { path: root, is_dir: true }),
                EntryKind::Other => failure = Some(RootError::NotFound),
            }
        }
        let w = Walker { config, pending, total: 0, in_root: true, failure };
        (w, notices)
    }

    /// Takes the next task off the stack; `Finished` once the stack is empty
    /// or the root has failed.
    pub fn next(&mut self) -> (r: Request<P>)
        ensures
            final(self).config_model() == old(self).config_model(),
            final(self)@.total == old(self)@.total,
            final(self)@.in_root == old(self)@.in_root,
            final(self)@.failure == old(self)@.failure,
            old(self)@.failure is Some || old(self)@.pending.len() == 0 ==> r is Finished
                && final(self)@.pending == old(self)@.pending,
            old(self)@.failure is None && old(self)@.pending.len() > 0 ==> {
                let t = old(self)@.pending.last();
                &&& final(self)@.pending == old(self)@.pending.drop_last()
                &&& if t.is_dir {
                    r == Request::ListDir(t.path)
                } else {
                    r == Request::ReadFile(t.path)
                }
            },
    {
        if self.failure.is_some() {
            return Request::Finished;
        }
        match self.pending.pop() {
            None => Request::Finished,
            Some(t) => if t.is_dir {
                Request::ListDir(t.path)
            } else {
                Request::ReadFile(t.path)
            },
        }
    }

    /// Takes in what reading the file at `path` gave. Its lines are added to
    /// the total; a failure fails the walk if the file is the root, and is
    /// otherwise reported and counts zero.
    pub fn file_read(&mut self, path: P, result: Result<String, E>) -> (r: Vec<Notice<P, E>>)
        ensures
            final(self).config_model() == old(self).config_model(),
            final(self)@.pending == old(self)@.pending,
            !final(self)@.in_root,
            match result {
                Ok(text) => {
                    &&& final(self)@.total == sat_add(
                        old(self)@.total,
                        line_count(text@, old(self).config_model().rule),
                    )
                    &&& final(self)@.failure == old(self)@.failure
                    &&& r@.len() == 0
                },
                Err(e) => {
                    &&& final(self)@.total == old(self)@.total
                    &&& if old(self)@.in_root {
                        &&& final(self)@.failure == Some(RootError::Io(e))
                        &&& r@.len() == 0
                    } else {
                        &&& final(self)@.failure == old(self)@.failure
                        &&& r@ == seq![Notice::FileFailed(path, e)]
                    }
                },
            },
    {
        let mut notices: Vec<Notice<P, E>> = Vec::new();
        match result {
            Ok(text) => {
                let k = count_text_lines(text.as_str(), self.config.rule);
                self.total = self.total.saturating_add(k);
            },
            Err(e) => {
                if self.in_root {
                    self.failure = Some(RootError::Io(e));
                } else {
                    notices.push(Notice::FileFailed(path, e));
                }
            },
        }
        self.in_root = false;
        notices
    }

    /// Takes in what listing the directory at `path` gave. The entries to
    /// visit go on the stack, and excluded entries and entries of neither
    /// kind are reported. A failure fails the walk if the directory is the
    /// root, and is otherwise reported and counts zero.
    pub fn dir_listed(&mut self, path: P, result: Result<Vec<Entry<P>>, E>) -> (r: Vec<
        Notice<P, E>,
    >)
        ensures
            final(self).config_model() == old(self).config_model(),
            final(self)@.total == old(self)@.total,
            !final(self)@.in_root,
            match result {
                Ok(es) => {
                    &&& final(self)@.pending == old(self)@.pending + new_tasks(
                        es@,
                        old(self).config_model(),
                    )
                    &&& final(self)@.failure == old(self)@.failure
                    &&& r@.len() == listing_notices(es@, old(self).config_model())
                    &&& forall|i: int| 0 <= i < r@.len() ==> (#[trigger] r@[i] is Skipped || r@[i] is NotFound)
                },
                Err(e) => {
                    &&& final(self)@.pending == old(self)@.pending
                    &&& if old(self)@.in_root {
                        &&& final(self)@.failure == Some(RootError::Io(e))
                        &&& r@.len() == 0
                    } else {
                        &&& final(self)@.failure == old(self)@.failure
                        &&& r@ == seq![Notice::DirFailed(path, e)]
                    }
                },
            },
    {
        let mut notices: Vec<Notice<P, E>> = Vec::new();
        match result {
            Ok(es) => {
                let mut es = es;
                let ghost all = es@;
                let ghost base = self.pending@;
                let ghost cfg = self.config.model();
                while es.len() > 0
                    invariant
                        self.config.model() == cfg,
                        self.config == old(self).config,
                        self.total == old(self).total,
                        self.failure == old(self).failure,
                        self.in_root == old(self).in_root,
                        es@ == all.take(es@.len() as int),
                        es@.len() <= all.len(),
                        self.pending@ + new_tasks(es@, cfg) == base + new_tasks(all, cfg),
                        notices@.len() + listing_notices(es@, cfg) == listing_notices(all, cfg),
                        forall|i: int| 0 <= i < notices@.len() ==> (#[trigger] notices@[i] is Skipped
                            || notices@[i] is NotFound),
                    decreases es@.len(),
                {
                    let ghost before = es@;
                    let e = es.pop().unwrap();
                    proof {
                        assert(es@ == before.drop_last());
                        assert(es@ == all.take(es@.len() as int));
                    }
                    let Entry { path: p, name, kind } = e;
                    if self.config.excluded.excludes_base_name(&name) {
                        notices.push(Notice::Skipped(p));
                    } else {
                        match kind {
                            EntryKind::File => self.pending.push(Task { path: p, is_dir: false }),
                            EntryKind::Dir => if self.config.recursive {
                                self.pending.push(Task { path: p, is_dir: true });
                            },
                            EntryKind::Other => notices.push(Notice::NotFound(p)),
                        }
                    }
                    proof {
                        assert(self.pending@ + new_tasks(es@, cfg) =~= base + new_tasks(all, cfg));
                    }
                }
                proof {
                    assert(es@ =~= Seq::<Entry<P>>::empty());
                }
            },
            Err(e) => {
                if self.in_root {
                    self.failure = Some(RootError::Io(e));
                } else {
                    notices.push(Notice::DirFailed(path, e));
                }
            },
        }
        self.in_root = false;
        notices
    }

    /// The outcome of the walk: the total, or why the root has no count.
    pub fn finish(self) -> (r: Result<usize, RootError<E>>)
        ensures
            match self@.failure {
                Some(f) => r == Err::<usize, RootError<E>>(f),
                None => r == Ok::<usize, RootError<E>>(self@.total as usize),
            },
    {
        match self.failure {
            Some(f) => Err(f),
            None => Ok(self.total),
        }
    }
}

} // verus!
