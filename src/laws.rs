//! What holds of every count that the model gives.
use vstd::prelude::*;
use crate::model::{Node, WalkModel, entries_total, entry_contribution, is_excluded, tree_count};
use crate::walker::{Entry, EntryKind, is_visited, listing_notices, name_view, new_tasks};

verus! {

/// The count of a node, a failing one counting zero.
pub open spec fn count_or_zero(n: Node, cfg: WalkModel) -> nat {
    match tree_count(n, cfg) {
        Ok(k) => k,
        Err(_) => 0,
    }
}

/// Whether an entry is kept by the exclusion filter.
pub open spec fn kept(cfg: WalkModel) -> spec_fn((Option<Seq<char>>, Node)) -> bool {
    |e: (Option<Seq<char>>, Node)| !is_excluded(e.0, cfg.excluded)
}

/// The count of an entry's node, a failing one counting zero.
pub open spec fn child_count(cfg: WalkModel) -> spec_fn((Option<Seq<char>>, Node)) -> nat {
    |e: (Option<Seq<char>>, Node)| count_or_zero(e.1, cfg)
}

/// The sum of a sequence of counts.
pub open spec fn sum_of(s: Seq<nat>) -> nat
    decreases s.len(),
{
    if s.len() == 0 {
        0
    } else {
        sum_of(s.drop_last()) + s.last()
    }
}

/// Every directory entry is counted independently of the others: the total
/// of two runs of entries is the sum of their totals, whatever the order.
pub proof fn law_entries_split(a: Seq<(Option<Seq<char>>, Node)>, b: Seq<(Option<Seq<char>>, Node)>, cfg: WalkModel)
    ensures
        entries_total(a + b, cfg) == entries_total(a, cfg) + entries_total(b, cfg),
        entries_total(a + b, cfg) == entries_total(b + a, cfg),
    decreases b.len(),
{
    lemma_split(a, b, cfg);
    lemma_split(b, a, cfg);
}

proof fn lemma_split(a: Seq<(Option<Seq<char>>, Node)>, b: Seq<(Option<Seq<char>>, Node)>, cfg: WalkModel)
    ensures
        entries_total(a + b, cfg) == entries_total(a, cfg) + entries_total(b, cfg),
    decreases b.len(),
{
    if b.len() == 0 {
        assert(a + b =~= a);
    } else {
        lemma_split(a, b.drop_last(), cfg);
        assert((a + b).drop_last() =~= a + b.drop_last());
        assert((a + b).last() == b.last());
    }
}

/// With recursion on, a directory's count is the sum of the counts of its
/// children that are not excluded, a child that fails counting zero.
pub proof fn law_sum_of_children(es: Seq<(Option<Seq<char>>, Node)>, cfg: WalkModel)
    requires
        cfg.recursive,
    ensures
        tree_count(Node::Dir(Some(es)), cfg) == Ok::<nat, crate::model::Fault>(
            sum_of(es.filter(kept(cfg)).map_values(child_count(cfg))),
        ),
    decreases es.len(),
{
    lemma_sum_filtered(es, cfg);
}

proof fn lemma_sum_filtered(es: Seq<(Option<Seq<char>>, Node)>, cfg: WalkModel)
    requires
        cfg.recursive,
    ensures
        entries_total(es, cfg) == sum_of(es.filter(kept(cfg)).map_values(child_count(cfg))),
    decreases es.len(),
{
    let p = kept(cfg);
    let f = child_count(cfg);
    reveal(Seq::filter);
    if es.len() > 0 {
        lemma_sum_filtered(es.drop_last(), cfg);
        let sub = es.drop_last().filter(p);
        assert(es.filter(p) == if p(es.last()) { sub.push(es.last()) } else { sub });
        assert(entries_total(es, cfg) == entries_total(es.drop_last(), cfg) + entry_contribution(es.last(), cfg));
        if p(es.last()) {
            assert(entry_contribution(es.last(), cfg) == f(es.last()));
            assert(sub.push(es.last()).map_values(f) =~= sub.map_values(f).push(f(es.last())));
            assert(sub.map_values(f).push(f(es.last())).drop_last() =~= sub.map_values(f));
        } else {
            assert(entry_contribution(es.last(), cfg) == 0);
        }
    }
}

/// With recursion off, a subdirectory adds nothing to its parent's count,
/// whatever it holds: putting any other directory in its place changes nothing.
pub proof fn law_non_recursive_gate(es: Seq<(Option<Seq<char>>, Node)>, k: int, other: Node, cfg: WalkModel)
    requires
        !cfg.recursive,
        0 <= k < es.len(),
        es[k].1 is Dir,
        other is Dir,
    ensures
        entry_contribution(es[k], cfg) == 0,
        tree_count(Node::Dir(Some(es)), cfg) == tree_count(Node::Dir(Some(es.update(k, (es[k].0, other)))), cfg),
{
    let es2 = es.update(k, (es[k].0, other));
    lemma_split_at(es, k, cfg);
    lemma_split_at(es2, k, cfg);
    assert(es.take(k) =~= es2.take(k));
    assert(es.skip(k + 1) =~= es2.skip(k + 1));
}

/// The total of `es` is that of the entries before `k`, of entry `k`, and of
/// those after it.
proof fn lemma_split_at(es: Seq<(Option<Seq<char>>, Node)>, k: int, cfg: WalkModel)
    requires
        0 <= k < es.len(),
    ensures
        entries_total(es, cfg) == entries_total(es.take(k), cfg) + entry_contribution(es[k], cfg)
            + entries_total(es.skip(k + 1), cfg),
{
    let one = seq![es[k]];
    assert(es =~= es.take(k) + (one + es.skip(k + 1)));
    lemma_split(es.take(k), one + es.skip(k + 1), cfg);
    lemma_split(one, es.skip(k + 1), cfg);
    assert(one.drop_last() =~= Seq::<(Option<Seq<char>>, Node)>::empty());
    assert(one.last() == es[k]);
    assert(entries_total(one.drop_last(), cfg) == 0);
    assert(entries_total(one, cfg) == entries_total(one.drop_last(), cfg) + entry_contribution(one.last(), cfg));
}

/// Whether some entry anywhere below `n` has base name `x`.
pub open spec fn name_occurs(n: Node, x: Seq<char>) -> bool
    decreases n,
{
    match n {
        Node::Dir(Some(es)) => entries_mention(es, x),
        _ => false,
    }
}

/// Whether some entry of `es`, or below one, has base name `x`.
pub open spec fn entries_mention(es: Seq<(Option<Seq<char>>, Node)>, x: Seq<char>) -> bool
    decreases es,
{
    if es.len() == 0 {
        false
    } else {
        entries_mention(es.drop_last(), x) || es.last().0 == Some(x) || name_occurs(es.last().1, x)
    }
}

/// `cfg` with `x` added to the excluded names.
pub open spec fn also_excluding(cfg: WalkModel, x: Seq<char>) -> WalkModel {
    WalkModel { recursive: cfg.recursive, excluded: cfg.excluded.insert(x), rule: cfg.rule }
}

proof fn lemma_tree_unaffected(n: Node, x: Seq<char>, cfg: WalkModel)
    requires
        !name_occurs(n, x),
    ensures
        tree_count(n, also_excluding(cfg, x)) == tree_count(n, cfg),
    decreases n,
{
    if let Node::Dir(Some(es)) = n {
        lemma_entries_unaffected(es, x, cfg);
    }
}

proof fn lemma_entries_unaffected(es: Seq<(Option<Seq<char>>, Node)>, x: Seq<char>, cfg: WalkModel)
    requires
        !entries_mention(es, x),
    ensures
        entries_total(es, also_excluding(cfg, x)) == entries_total(es, cfg),
    decreases es,
{
    if es.len() > 0 {
        lemma_entries_unaffected(es.drop_last(), x, cfg);
        lemma_tree_unaffected(es.last().1, x, cfg);
        let c2 = also_excluding(cfg, x);
        assert(is_excluded(es.last().0, c2.excluded) == is_excluded(es.last().0, cfg.excluded));
        assert(entry_contribution(es.last(), c2) == entry_contribution(es.last(), cfg));
        assert(entries_total(es, c2) == entries_total(es.drop_last(), c2) + entry_contribution(es.last(), c2));
        assert(entries_total(es, cfg) == entries_total(es.drop_last(), cfg) + entry_contribution(es.last(), cfg));
    }
}

/// Excluding the name of a subdirectory `x` of a recursive walk takes away
/// exactly what that subdirectory counted, provided no other entry in the
/// tree has that name.
pub proof fn law_exclusion_removes_subtree(es: Seq<(Option<Seq<char>>, Node)>, k: int, x: Seq<char>, cfg: WalkModel)
    requires
        cfg.recursive,
        !cfg.excluded.contains(x),
        0 <= k < es.len(),
        es[k].0 == Some(x),
        es[k].1 is Dir,
        !entries_mention(es.take(k), x),
        !entries_mention(es.skip(k + 1), x),
    ensures
        entries_total(es, cfg) >= count_or_zero(es[k].1, cfg),
        tree_count(Node::Dir(Some(es)), also_excluding(cfg, x)) == Ok::<nat, crate::model::Fault>(
            (entries_total(es, cfg) - count_or_zero(es[k].1, cfg)) as nat,
        ),
{
    lemma_split_at(es, k, cfg);
    lemma_split_at(es, k, also_excluding(cfg, x));
    lemma_entries_unaffected(es.take(k), x, cfg);
    lemma_entries_unaffected(es.skip(k + 1), x, cfg);
}

/// How many diagnostics one entry gives, together with those below it.
pub open spec fn entry_notices(e: (Option<Seq<char>>, Node), cfg: WalkModel) -> nat
    decreases e,
{
    if is_excluded(e.0, cfg.excluded) {
        1
    } else {
        match e.1 {
            Node::File(Some(_)) => 0,
            Node::File(None) => 1,
            Node::Dir(None) => if cfg.recursive {
                1
            } else {
                0
            },
            Node::Dir(Some(es)) => if cfg.recursive {
                entries_notices(es, cfg)
            } else {
                0
            },
            Node::Other => 1,
        }
    }
}

/// How many diagnostics the entries of a directory give.
pub open spec fn entries_notices(es: Seq<(Option<Seq<char>>, Node)>, cfg: WalkModel) -> nat
    decreases es,
{
    if es.len() == 0 {
        0
    } else {
        entries_notices(es.drop_last(), cfg) + entry_notices(es.last(), cfg)
    }
}

proof fn lemma_notices_split(a: Seq<(Option<Seq<char>>, Node)>, b: Seq<(Option<Seq<char>>, Node)>, cfg: WalkModel)
    ensures
        entries_notices(a + b, cfg) == entries_notices(a, cfg) + entries_notices(b, cfg),
    decreases b.len(),
{
    if b.len() == 0 {
        assert(a + b =~= a);
    } else {
        lemma_notices_split(a, b.drop_last(), cfg);
        assert((a + b).drop_last() =~= a + b.drop_last());
        assert((a + b).last() == b.last());
    }
}

/// Whether every entry of `es` is a readable file that is not excluded.
pub open spec fn all_readable_files(es: Seq<(Option<Seq<char>>, Node)>, cfg: WalkModel) -> bool {
    forall|i: int| 0 <= i < es.len() ==> !is_excluded(#[trigger] es[i].0, cfg.excluded) && es[i].1 matches Node::File(Some(_))
}

proof fn lemma_readable_files_quiet(es: Seq<(Option<Seq<char>>, Node)>, cfg: WalkModel)
    requires
        all_readable_files(es, cfg),
    ensures
        entries_notices(es, cfg) == 0,
    decreases es.len(),
{
    if es.len() > 0 {
        assert(all_readable_files(es.drop_last(), cfg)) by {
            assert forall|i: int| 0 <= i < es.drop_last().len() implies !is_excluded(#[trigger] es.drop_last()[i].0, cfg.excluded)
                && es.drop_last()[i].1 matches Node::File(Some(_)) by {
                assert(es.drop_last()[i] == es[i]);
            }
        }
        lemma_readable_files_quiet(es.drop_last(), cfg);
        assert(!is_excluded(es[es.len() - 1].0, cfg.excluded));
        assert(es[es.len() - 1].1 matches Node::File(Some(_)));
        assert(entry_notices(es.last(), cfg) == 0);
        assert(entries_notices(es, cfg) == entries_notices(es.drop_last(), cfg) + entry_notices(es.last(), cfg));
    }
}

/// A directory with one unreadable file among readable ones counts what the
/// readable ones count, as if the unreadable one were not there, and gives
/// exactly one diagnostic.
pub proof fn law_partial_failure(es: Seq<(Option<Seq<char>>, Node)>, k: int, cfg: WalkModel)
    requires
        0 <= k < es.len(),
        !is_excluded(es[k].0, cfg.excluded),
        es[k].1 == Node::File(None),
        all_readable_files(es.remove(k), cfg),
    ensures
        tree_count(Node::Dir(Some(es)), cfg) == tree_count(Node::Dir(Some(es.remove(k))), cfg),
        entries_notices(es, cfg) == 1,
{
    let one = seq![es[k]];
    assert(es =~= es.take(k) + (one + es.skip(k + 1)));
    assert(es.remove(k) =~= es.take(k) + es.skip(k + 1));
    lemma_split_at(es, k, cfg);
    lemma_split(es.take(k), es.skip(k + 1), cfg);
    lemma_notices_split(es.take(k), one + es.skip(k + 1), cfg);
    lemma_notices_split(one, es.skip(k + 1), cfg);
    lemma_notices_split(es.take(k), es.skip(k + 1), cfg);
    lemma_readable_files_quiet(es.remove(k), cfg);
    assert(one.drop_last() =~= Seq::<(Option<Seq<char>>, Node)>::empty());
    assert(one.last() == es[k]);
    assert(entries_notices(one.drop_last(), cfg) == 0);
    assert(entries_notices(one, cfg) == entries_notices(one.drop_last(), cfg) + entry_notices(one.last(), cfg));
}

/// What a node is, as a listing reports it.
pub open spec fn kind_of(n: Node) -> EntryKind {
    match n {
        Node::File(_) => EntryKind::File,
        Node::Dir(_) => EntryKind::Dir,
        Node::Other => EntryKind::Other,
    }
}

/// Whether the listing `es` reports the entries `ms`, one for one.
pub open spec fn listing_matches<P>(es: Seq<Entry<P>>, ms: Seq<(Option<Seq<char>>, Node)>) -> bool {
    &&& es.len() == ms.len()
    &&& forall|i: int| 0 <= i < es.len() ==> name_view(#[trigger] es[i].name) == ms[i].0 && es[i].kind == kind_of(ms[i].1)
}

/// The nodes of the entries of `ms` that a walk visits, in the order of the
/// tasks that the walker adds for them.
pub open spec fn visited_nodes(ms: Seq<(Option<Seq<char>>, Node)>, cfg: WalkModel) -> Seq<Node>
    decreases ms.len(),
{
    if ms.len() == 0 {
        Seq::empty()
    } else {
        let rest = visited_nodes(ms.drop_last(), cfg);
        if is_visited(ms.last().0, kind_of(ms.last().1), cfg) {
            seq![ms.last().1] + rest
        } else {
            rest
        }
    }
}

/// The sum of the counts of `ns`, failing ones counting zero.
pub open spec fn nodes_total(ns: Seq<Node>, cfg: WalkModel) -> nat
    decreases ns.len(),
{
    if ns.len() == 0 {
        0
    } else {
        count_or_zero(ns[0], cfg) + nodes_total(ns.drop_first(), cfg)
    }
}

/// How many diagnostics the walk gives once it visits `n`, with those below it
/// when it is a directory.
pub open spec fn node_notices(n: Node, cfg: WalkModel) -> nat {
    match n {
        Node::File(None) => 1,
        Node::Dir(None) => 1,
        Node::Dir(Some(es)) => entries_notices(es, cfg),
        _ => 0,
    }
}

/// The sum of the diagnostics of visiting each of `ns`.
pub open spec fn nodes_notices(ns: Seq<Node>, cfg: WalkModel) -> nat
    decreases ns.len(),
{
    if ns.len() == 0 {
        0
    } else {
        node_notices(ns[0], cfg) + nodes_notices(ns.drop_first(), cfg)
    }
}

/// The tasks that the walker adds for a listing stand one for one for the
/// visited entries; what they will count is the directory's count, and the
/// diagnostics of the listing and of visiting them are the directory's.
pub proof fn law_listing_accounts<P>(es: Seq<Entry<P>>, ms: Seq<(Option<Seq<char>>, Node)>, cfg: WalkModel)
    requires
        listing_matches(es, ms),
    ensures
        new_tasks(es, cfg).len() == visited_nodes(ms, cfg).len(),
        forall|i: int| 0 <= i < new_tasks(es, cfg).len() ==> (#[trigger] new_tasks(es, cfg)[i]).is_dir
            == (visited_nodes(ms, cfg)[i] is Dir),
        nodes_total(visited_nodes(ms, cfg), cfg) == entries_total(ms, cfg),
        listing_notices(es, cfg) + nodes_notices(visited_nodes(ms, cfg), cfg) == entries_notices(ms, cfg),
        tree_count(Node::Dir(Some(ms)), cfg) == Ok::<nat, crate::model::Fault>(
            nodes_total(visited_nodes(ms, cfg), cfg),
        ),
    decreases es.len(),
{
    if es.len() > 0 {
        let es0 = es.drop_last();
        let ms0 = ms.drop_last();
        assert(listing_matches(es0, ms0)) by {
            assert forall|i: int| 0 <= i < es0.len() implies name_view(#[trigger] es0[i].name) == ms0[i].0
                && es0[i].kind == kind_of(ms0[i].1) by {
                assert(es0[i] == es[i]);
            }
        }
        law_listing_accounts(es0, ms0, cfg);
        let e = es.last();
        let m = ms.last();
        assert(name_view(es[es.len() - 1].name) == ms[ms.len() - 1].0);
        let rest_t = new_tasks(es0, cfg);
        let rest_n = visited_nodes(ms0, cfg);
        if is_visited(m.0, kind_of(m.1), cfg) {
            let t = seq![(crate::walker::Task { path: e.path, is_dir: e.kind == EntryKind::Dir })];
            assert(new_tasks(es, cfg) == t + rest_t);
            assert((seq![m.1] + rest_n).drop_first() =~= rest_n);
            assert forall|i: int| 0 <= i < new_tasks(es, cfg).len() implies (#[trigger] new_tasks(es, cfg)[i]).is_dir
                == (visited_nodes(ms, cfg)[i] is Dir) by {
                if i > 0 {
                    assert(new_tasks(es, cfg)[i] == rest_t[i - 1]);
                    assert(visited_nodes(ms, cfg)[i] == rest_n[i - 1]);
                }
            }
        } else {
            assert(entry_contribution(m, cfg) == 0);
        }
        assert(entries_notices(ms, cfg) == entries_notices(ms0, cfg) + entry_notices(m, cfg));
    }
}

} // verus!
