//! The process tree: a mapping from each visible process to its parent,
//! and the descendants of a target process in it.
//!
//! The mapping is built from whatever status records could be read and
//! parsed, so it may be partial and, during a race, inconsistent: parents
//! may be missing and links may form cycles. The descendant set is defined,
//! and computed, without relying on either.

use std::collections::HashMap;
use std::collections::HashSet;
use vstd::prelude::*;
use vstd::set_lib::lemma_len_subset;
use vstd::std_specs::hash::spec_hash_map_iter;
use vstd::std_specs::iter::IteratorSpec;

use crate::decimal::{i32_of_text, parse_i32};
use crate::proc_stat::{parse_proc_stat_with, stat_record, CloseMatch};

verus! {

broadcast use vstd::std_specs::hash::group_hash_axioms;

/// The status texts `texts` as sequences of characters.
pub open spec fn text_views(texts: Seq<String>) -> Seq<Seq<char>> {
    texts.map_values(|text: String| text@)
}

/// The entry that the status text `text` adds to the tree: its process and
/// that process's parent; nothing when the text does not parse.
pub open spec fn entry_of(text: Seq<char>, policy: CloseMatch) -> Option<(i32, i32)> {
    match stat_record(text, policy) {
        Ok(record) => Some((record.pid, record.ppid)),
        Err(_) => None,
    }
}

/// The mapping from process to parent that the entries `entries` give, read
/// in order: an entry adds its process, or replaces the parent recorded for
/// it; a missing entry adds nothing.
pub open spec fn tree_of_entries(entries: Seq<Option<(i32, i32)>>) -> Map<i32, i32>
    decreases entries.len(),
{
    if entries.len() == 0 {
        Map::empty()
    } else {
        let earlier = tree_of_entries(entries.drop_last());
        match entries.last() {
            Some(entry) => earlier.insert(entry.0, entry.1),
            None => earlier,
        }
    }
}

/// The mapping from process to parent that the status texts `texts` give:
/// each text that parses contributes the entry of its process, and a later
/// text for the same process replaces an earlier one.
pub open spec fn tree_of(texts: Seq<Seq<char>>, policy: CloseMatch) -> Map<i32, i32> {
    tree_of_entries(texts.map_values(|text: Seq<char>| entry_of(text, policy)))
}

/// Whether following parent links from `pid` leads to `target` in exactly
/// `steps` steps.
pub open spec fn reaches(tree: Map<i32, i32>, pid: i32, target: i32, steps: nat) -> bool
    decreases steps,
{
    if steps == 0 {
        pid == target
    } else {
        tree.contains_key(pid) && reaches(tree, tree[pid], target, (steps - 1) as nat)
    }
}

/// Whether `pid` is `target` or descends from it in `tree`.
pub open spec fn is_descendant(tree: Map<i32, i32>, pid: i32, target: i32) -> bool {
    exists|steps: nat| reaches(tree, pid, target, steps)
}

/// The target together with every process that descends from it in `tree`.
pub open spec fn descendants(tree: Map<i32, i32>, target: i32) -> Set<i32> {
    Set::new(|pid: i32| is_descendant(tree, pid, target))
}

/// Whether `set` holds every child, by `tree`, of each of its members.
pub open spec fn closed_under_children(tree: Map<i32, i32>, set: Set<i32>) -> bool {
    forall|pid: i32| #[trigger]
        tree.contains_key(pid) && set.contains(tree[pid]) ==> set.contains(pid)
}

/// A process is in the tree exactly when some entry is its own.
pub proof fn lemma_tree_domain(entries: Seq<Option<(i32, i32)>>, pid: i32)
    ensures
        tree_of_entries(entries).contains_key(pid) <==> exists|i: int|
            0 <= i < entries.len() && (#[trigger] entries[i] matches Some(entry) && entry.0 == pid),
        tree_of_entries(entries).dom().finite(),
    decreases entries.len(),
{
    if entries.len() > 0 {
        let earlier = entries.drop_last();
        lemma_tree_domain(earlier, pid);
        assert(forall|i: int| 0 <= i < earlier.len() ==> earlier[i] == entries[i]);
    }
}

/// The parent recorded for a process is the one that its last entry names.
pub proof fn lemma_tree_parent(entries: Seq<Option<(i32, i32)>>, i: int, pid: i32, ppid: i32)
    requires
        0 <= i < entries.len(),
        entries[i] == Some((pid, ppid)),
        forall|j: int|
            i < j < entries.len() ==> !(#[trigger] entries[j] matches Some(entry) && entry.0
                == pid),
    ensures
        tree_of_entries(entries).contains_key(pid),
        tree_of_entries(entries)[pid] == ppid,
    decreases entries.len(),
{
    if i < entries.len() - 1 {
        let earlier = entries.drop_last();
        assert(forall|j: int| 0 <= j < earlier.len() ==> earlier[j] == entries[j]);
        lemma_tree_parent(earlier, i, pid, ppid);
    }
}

/// A status text that parses puts its process into every tree built from
/// texts that include it.
pub proof fn lemma_parsed_text_is_in_tree(texts: Seq<Seq<char>>, i: int, policy: CloseMatch)
    requires
        0 <= i < texts.len(),
        stat_record(texts[i], policy) is Ok,
    ensures
        tree_of(texts, policy).contains_key(stat_record(texts[i], policy)->Ok_0.pid),
{
    let entries = texts.map_values(|text: Seq<char>| entry_of(text, policy));
    let pid = stat_record(texts[i], policy)->Ok_0.pid;
    assert(entries[i] matches Some(entry) && entry.0 == pid);
    lemma_tree_domain(entries, pid);
}

/// The descendant set holds the target, whether or not the tree knows it,
/// and every child of each of its members.
pub proof fn lemma_descendants_closed(tree: Map<i32, i32>, target: i32)
    ensures
        descendants(tree, target).contains(target),
        closed_under_children(tree, descendants(tree, target)),
{
    assert(reaches(tree, target, target, 0));
    assert forall|pid: i32| #[trigger]
        tree.contains_key(pid) && descendants(tree, target).contains(tree[pid]) implies descendants(
        tree,
        target,
    ).contains(pid) by {
        let steps = choose|steps: nat| reaches(tree, tree[pid], target, steps);
        assert(reaches(tree, pid, target, steps + 1));
    }
}

/// The descendant set is the least set that holds the target and every
/// child of each of its members.
pub proof fn lemma_descendants_least(tree: Map<i32, i32>, target: i32, set: Set<i32>)
    requires
        set.contains(target),
        closed_under_children(tree, set),
    ensures
        descendants(tree, target).subset_of(set),
{
    assert forall|pid: i32| descendants(tree, target).contains(pid) implies set.contains(pid) by {
        let steps = choose|steps: nat| reaches(tree, pid, target, steps);
        lemma_reaches_in_closed(tree, target, set, pid, steps);
    }
}

/// Whatever reaches the target lies in every closed set that holds it.
proof fn lemma_reaches_in_closed(
    tree: Map<i32, i32>,
    target: i32,
    set: Set<i32>,
    pid: i32,
    steps: nat,
)
    requires
        set.contains(target),
        closed_under_children(tree, set),
        reaches(tree, pid, target, steps),
    ensures
        set.contains(pid),
    decreases steps,
{
    if steps > 0 {
        lemma_reaches_in_closed(tree, target, set, tree[pid], (steps - 1) as nat);
    }
}

/// Every descendant other than the target is a process of the tree, so the
/// descendant set is finite.
pub proof fn lemma_descendants_bounded(tree: Map<i32, i32>, target: i32)
    requires
        tree.dom().finite(),
    ensures
        descendants(tree, target).subset_of(tree.dom().insert(target)),
        descendants(tree, target).finite(),
        descendants(tree, target).len() <= tree.dom().len() + 1,
{
    let bound = tree.dom().insert(target);
    assert forall|pid: i32| descendants(tree, target).contains(pid) implies bound.contains(pid) by {
        let steps = choose|steps: nat| reaches(tree, pid, target, steps);
        assert(steps > 0 ==> tree.contains_key(pid));
    }
    lemma_len_subset(descendants(tree, target), bound);
}

/// A target that the tree does not name as anyone's parent has no
/// descendant but itself.
pub proof fn lemma_descendants_of_leaf(tree: Map<i32, i32>, target: i32)
    requires
        forall|pid: i32| tree.contains_key(pid) ==> #[trigger] tree[pid] != target,
    ensures
        descendants(tree, target) == set![target],
{
    let alone = set![target];
    lemma_descendants_least(tree, target, alone);
    lemma_descendants_closed(tree, target);
}

/// The process identifiers among the names `names`, in order: a name that
/// reads as a 32-bit decimal integer is one, any other name is left out.
pub open spec fn ids_of(names: Seq<Seq<char>>) -> Seq<i32>
    decreases names.len(),
{
    if names.len() == 0 {
        Seq::empty()
    } else {
        let earlier = ids_of(names.drop_last());
        match i32_of_text(names.last()) {
            Some(pid) => earlier.push(pid),
            None => earlier,
        }
    }
}

/// Picks the process identifiers out of the entry names of the process
/// table.
pub fn process_ids(names: &Vec<String>) -> (ids: Vec<i32>)
    ensures
        ids@ == ids_of(text_views(names@)),
{
    let mut ids: Vec<i32> = Vec::new();
    let mut i: usize = 0;
    while i < names.len()
        invariant
            i <= names@.len(),
            ids@ == ids_of(text_views(names@).take(i as int)),
        decreases names@.len() - i,
    {
        proof {
            let next = text_views(names@).take(i + 1);
            assert(next.drop_last() =~= text_views(names@).take(i as int));
        }
        match parse_i32(names[i].as_str()) {
            Some(pid) => {
                ids.push(pid);
            },
            None => {},
        }
        i += 1;
    }
    proof {
        assert(text_views(names@).take(names@.len() as int) =~= text_views(names@));
    }
    ids
}

/// Builds the process tree from the status texts that could be read, one
/// per process. A text that does not parse is left out.
pub fn build_process_tree(stats: &Vec<String>, policy: CloseMatch) -> (tree: HashMap<i32, i32>)
    ensures
        tree@ == tree_of(text_views(stats@), policy),
{
    let mut tree: HashMap<i32, i32> = HashMap::new();
    let mut i: usize = 0;
    while i < stats.len()
        invariant
            i <= stats@.len(),
            tree@ == tree_of(text_views(stats@).take(i as int), policy),
        decreases stats@.len() - i,
    {
        proof {
            let entries = |texts: Seq<Seq<char>>|
                texts.map_values(|text: Seq<char>| entry_of(text, policy));
            let next = text_views(stats@).take(i + 1);
            assert(entries(next).drop_last() =~= entries(text_views(stats@).take(i as int)));
        }
        match parse_proc_stat_with(stats[i].as_str(), policy) {
            Ok(record) => {
                tree.insert(record.pid, record.ppid);
            },
            Err(_) => {},
        }
        i += 1;
    }
    proof {
        assert(text_views(stats@).take(stats@.len() as int) =~= text_views(stats@));
    }
    tree
}

/// The target together with all of its descendants in `parent_of`.
///
/// Starting from the target alone, every pass over the tree adds each
/// process whose parent is already in the set; the search ends with the
/// first pass that adds nothing. Every pass but the last adds a process of
/// the tree, so there are at most as many passes as the tree has entries,
/// plus one, whatever the links look like.
pub fn find_descendants(parent_of: &HashMap<i32, i32>, target_pid: i32) -> (found: HashSet<i32>)
    ensures
        found@ == descendants(parent_of@, target_pid),
        found@.finite(),
{
    let ghost tree = parent_of@;
    let ghost bound = tree.dom().insert(target_pid);
    let mut found: HashSet<i32> = HashSet::new();
    found.insert(target_pid);
    let mut found_new = true;
    proof {
        assert(reaches(tree, target_pid, target_pid, 0));
        lemma_len_subset(found@, bound);
    }
    while found_new
        invariant
            tree == parent_of@,
            bound == tree.dom().insert(target_pid),
            bound.finite(),
            found@.finite(),
            found@.contains(target_pid),
            found@.subset_of(bound),
            found@.subset_of(descendants(tree, target_pid)),
            found@.len() <= bound.len(),
            !found_new ==> closed_under_children(tree, found@),
        decreases bound.len() - found@.len() + if found_new { 1int } else { 0int },
    {
        let ghost before = found@;
        found_new = false;
        for entry in it: parent_of.iter()
            invariant
                tree == parent_of@,
                bound == tree.dom().insert(target_pid),
                bound.finite(),
                found@.finite(),
                before.finite(),
                before.subset_of(found@),
                found@.subset_of(bound),
                found@.subset_of(descendants(tree, target_pid)),
                found@.len() <= bound.len(),
                found_new ==> found@.len() > before.len(),
                !found_new ==> found@ == before,
                !found_new ==> forall|j: int|
                    0 <= j < it.index() ==> (found@.contains(*#[trigger] it.seq()[j].1)
                        ==> found@.contains(*it.seq()[j].0)),
        {
            let (pid, ppid) = entry;
            if found.contains(ppid) && !found.contains(pid) {
                proof {
                    let steps = choose|steps: nat| reaches(tree, *ppid, target_pid, steps);
                    assert(reaches(tree, *pid, target_pid, steps + 1));
                }
                found.insert(*pid);
                found_new = true;
                proof {
                    lemma_len_subset(found@, bound);
                }
            }
        }
        proof {
            if !found_new {
                assert forall|pid: i32| #[trigger]
                    tree.contains_key(pid) && found@.contains(tree[pid]) implies found@.contains(
                    pid,
                ) by {
                    let entries = spec_hash_map_iter(parent_of).remaining();
                    assert(entries.contains((&pid, &tree[pid])));
                    let j = choose|j: int|
                        0 <= j < entries.len() && entries[j] == (&pid, &tree[pid]);
                    assert(found@.contains(*entries[j].1) ==> found@.contains(*entries[j].0));
                }
            }
        }
    }
    proof {
        lemma_descendants_least(tree, target_pid, found@);
    }
    found
}

} // verus!
