//! A mathematical picture of the file system as one walk sees it, and what a
//! walk of it counts.
use vstd::prelude::*;
use crate::lines::{CountRule, line_count};

verus! {

/// What the walk finds at one place in the file system.
pub enum Node {
    /// A regular file: its text, or `None` where it cannot be read as text.
    File(Option<Seq<char>>),
    /// A directory: its entries, each with its base name (`None` where the
    /// name is not valid Unicode), or `None` where it cannot be listed.
    Dir(Option<Seq<(Option<Seq<char>>, Node)>>),
    /// Neither a regular file nor a directory (missing, dangling, a device).
    Other,
}

/// Why a root yields no count.
#[derive(Clone, Copy, Debug, PartialEq, Eq, Structural)]
pub enum Fault {
    /// The root is neither a regular file nor a directory.
    NotFound,
    /// The root could not be read or listed.
    Io,
}

/// The configuration of a walk, as the contracts speak of it.
pub struct WalkModel {
    pub recursive: bool,
    pub excluded: Set<Seq<char>>,
    pub rule: CountRule,
}

/// Whether an entry with base name `name` is skipped.
pub open spec fn is_excluded(name: Option<Seq<char>>, excluded: Set<Seq<char>>) -> bool {
    name matches Some(n) && excluded.contains(n)
}

/// The count of one node, or why there is none.
pub open spec fn tree_count(n: Node, cfg: WalkModel) -> Result<nat, Fault>
    decreases n,
{
    match n {
        Node::File(Some(t)) => Ok(line_count(t, cfg.rule)),
        Node::File(None) => Err(Fault::Io),
        Node::Dir(Some(es)) => Ok(entries_total(es, cfg)),
        Node::Dir(None) => Err(Fault::Io),
        Node::Other => Err(Fault::NotFound),
    }
}

/// What one directory entry adds to its directory's count: nothing if it is
/// excluded, if it is a directory and the walk does not recurse, or if it fails.
pub open spec fn entry_contribution(e: (Option<Seq<char>>, Node), cfg: WalkModel) -> nat
    decreases e,
{
    if is_excluded(e.0, cfg.excluded) {
        0
    } else if e.1 is Dir && !cfg.recursive {
        0
    } else {
        match tree_count(e.1, cfg) {
            Ok(k) => k,
            Err(_) => 0,
        }
    }
}

/// The sum of the contributions of `es`.
pub open spec fn entries_total(es: Seq<(Option<Seq<char>>, Node)>, cfg: WalkModel) -> nat
    decreases es,
{
    if es.len() == 0 {
        0
    } else {
        entries_total(es.drop_last(), cfg) + entry_contribution(es.last(), cfg)
    }
}

/// The count of a root with base name `name`: an excluded root counts zero.
pub open spec fn root_count(name: Option<Seq<char>>, n: Node, cfg: WalkModel) -> Result<nat, Fault> {
    if is_excluded(name, cfg.excluded) {
        Ok(0)
    } else {
        tree_count(n, cfg)
    }
}

} // verus!
