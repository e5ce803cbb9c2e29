//! The groups of a tree, and the names listed in each.

use vstd::prelude::*;
use crate::state::follow;
use crate::tree::{group_with_id, lemma_first_index_from, node_label, node_name, Group, Node};
use crate::text::views;

verus! {

/// The names under which the given nodes are shown, in their order; a node
/// that is shown under no name is left out.
pub open spec fn names_of(nodes: Seq<Node>) -> Seq<Seq<char>>
    decreases nodes.len(),
{
    if nodes.len() == 0 {
        Seq::empty()
    } else {
        match node_label(nodes.last()) {
            Some(n) => names_of(nodes.drop_last()).push(n),
            None => names_of(nodes.drop_last()),
        }
    }
}

/// The names listed in a group: those of its direct children, in child
/// order.
pub open spec fn child_names(g: Group) -> Seq<Seq<char>> {
    names_of(g.children@)
}

/// The `i`-th child of `g`, where that child is a group.
pub open spec fn child_at(g: Group, i: int) -> Option<Group> {
    if 0 <= i < g.children@.len() && g.children@[i] is Group {
        Some(g.children@[i]->Group_0)
    } else {
        None
    }
}

/// The group reached from `root` by taking, in turn, the child at each of
/// the given places.
pub open spec fn group_at(root: Group, places: Seq<int>) -> Option<Group>
    decreases places.len(),
{
    if places.len() == 0 {
        Some(root)
    } else {
        match group_at(root, places.drop_last()) {
            Some(p) => child_at(p, places.last()),
            None => None,
        }
    }
}

/// Whether `g` is `root` or a group anywhere below it.
pub open spec fn in_tree(root: Group, g: Group) -> bool {
    exists|places: Seq<int>| group_at(root, places) == Some(g)
}

/// No two groups of the tree share an identifier.
pub open spec fn unique_ids(root: Group) -> bool {
    forall|a: Group, b: Group|
        in_tree(root, a) && in_tree(root, b) && a.uuid == b.uuid ==> a == b
}

/// Every name listed in a group is the name under which one of its
/// children is shown, and found.
pub proof fn lemma_names_of_children(nodes: Seq<Node>, name: Seq<char>)
    requires
        names_of(nodes).contains(name),
    ensures
        exists|i: int|
            0 <= i < nodes.len() && node_label(nodes[i]) == Some(name) && node_name(nodes[i])
                == Some(name),
    decreases nodes.len(),
{
    if nodes.len() > 0 {
        let rest = names_of(nodes.drop_last());
        if node_label(nodes.last()) == Some(name) {
            assert(node_label(nodes[nodes.len() - 1]) == Some(name));
            assert(node_name(nodes[nodes.len() - 1]) == Some(name));
        } else {
            match node_label(nodes.last()) {
                Some(n) => {
                    let k = choose|k: int| 0 <= k < rest.push(n).len() && rest.push(n)[k] == name;
                    assert(rest[k] == name);
                    assert(rest.contains(name));
                },
                None => {},
            }
            lemma_names_of_children(nodes.drop_last(), name);
            let i = choose|i: int|
                0 <= i < nodes.drop_last().len() && node_label(nodes.drop_last()[i]) == Some(name)
                    && node_name(nodes.drop_last()[i]) == Some(name);
            assert(node_label(nodes[i]) == Some(name));
            assert(node_name(nodes[i]) == Some(name));
        }
    }
}

/// Going to a child first and on from there is going on from the child.
pub proof fn lemma_group_at_below(g: Group, i: int, rest: Seq<int>)
    ensures
        group_at(g, seq![i] + rest) == match child_at(g, i) {
            Some(c) => group_at(c, rest),
            None => None,
        },
    decreases rest.len(),
{
    let all = seq![i] + rest;
    if rest.len() == 0 {
        assert(all.drop_last() =~= Seq::<int>::empty());
        assert(all.last() == i);
    } else {
        assert(all.drop_last() =~= seq![i] + rest.drop_last());
        assert(all.last() == rest.last());
        lemma_group_at_below(g, i, rest.drop_last());
    }
}

/// What is in the tree below a child is in the tree.
pub proof fn lemma_child_in_tree(g: Group, i: int, h: Group)
    requires
        child_at(g, i) is Some,
        in_tree(child_at(g, i).unwrap(), h),
    ensures
        in_tree(g, h),
{
    let rest = choose|places: Seq<int>| group_at(child_at(g, i).unwrap(), places) == Some(h);
    lemma_group_at_below(g, i, rest);
}

/// A group of the tree is the root or lies below one of the root's
/// children.
pub proof fn lemma_in_tree_cases(g: Group, h: Group)
    requires
        in_tree(g, h),
    ensures
        h == g || exists|i: int|
            0 <= i < g.children@.len() && #[trigger] child_at(g, i) is Some && in_tree(
                child_at(g, i).unwrap(),
                h,
            ),
{
    let places = choose|places: Seq<int>| group_at(g, places) == Some(h);
    if places.len() > 0 {
        let i = places[0];
        let rest = places.skip(1);
        assert(seq![i] + rest =~= places);
        lemma_group_at_below(g, i, rest);
        assert(in_tree(child_at(g, i).unwrap(), h));
    }
}

/// What is in the tree of a group of the tree is in the tree.
pub proof fn lemma_in_tree_below(root: Group, g: Group, h: Group)
    requires
        in_tree(root, g),
        in_tree(g, h),
    ensures
        in_tree(root, h),
{
    let to_g = choose|places: Seq<int>| group_at(root, places) == Some(g);
    let to_h = choose|places: Seq<int>| group_at(g, places) == Some(h);
    lemma_group_at_joined(root, to_g, to_h);
}

/// Going to a group and on from there is going on from that group.
pub proof fn lemma_group_at_joined(root: Group, first: Seq<int>, then: Seq<int>)
    requires
        group_at(root, first) is Some,
    ensures
        group_at(root, first + then) == group_at(group_at(root, first).unwrap(), then),
    decreases then.len(),
{
    if then.len() == 0 {
        assert(first + then =~= first);
    } else {
        assert((first + then).drop_last() =~= first + then.drop_last());
        assert((first + then).last() == then.last());
        lemma_group_at_joined(root, first, then.drop_last());
    }
}

/// The group that a directory stack denotes is a group of the tree.
pub proof fn lemma_follow_in_tree(root: Group, stack: Seq<u128>)
    requires
        follow(root, stack) is Some,
    ensures
        in_tree(root, follow(root, stack).unwrap()),
        stack.len() > 0 ==> follow(root, stack).unwrap().uuid == stack.last(),
    decreases stack.len(),
{
    if stack.len() == 0 {
        assert(group_at(root, Seq::<int>::empty()) == Some(root));
    } else {
        lemma_follow_in_tree(root, stack.drop_last());
        let p = follow(root, stack.drop_last()).unwrap();
        let places = choose|places: Seq<int>| group_at(root, places) == Some(p);
        lemma_first_index_from(p.children@, group_with_id(stack.last()), 0);
        let i = crate::tree::first_index(p.children@, group_with_id(stack.last())).unwrap();
        assert(places.push(i).drop_last() =~= places);
        assert(group_at(root, places.push(i)) == child_at(p, i));
    }
}

/// The names listed in `group`: for each child that is shown under a name,
/// that name, in child order.
pub fn get_all_prefixes_under_group(group: &Group) -> (out: Vec<String>)
    ensures
        views(out@) == child_names(*group),
{
    let mut out: Vec<String> = Vec::new();
    let mut i: usize = 0;
    assert(group.children@.take(0) =~= Seq::<Node>::empty());
    assert(views(out@) =~= Seq::<Seq<char>>::empty());
    while i < group.children.len()
        invariant
            i <= group.children@.len(),
            views(out@) == names_of(group.children@.take(i as int)),
        decreases group.children@.len() - i,
    {
        proof {
            assert(group.children@.take(i + 1).drop_last() =~= group.children@.take(i as int));
            assert(group.children@.take(i + 1).last() == group.children@[i as int]);
        }
        match group.children[i].label() {
            Some(n) => {
                let ghost before = views(out@);
                out.push(n.to_owned());
                assert(views(out@) =~= before.push(n@));
            },
            None => {},
        }
        i += 1;
    }
    assert(group.children@.take(i as int) =~= group.children@);
    out
}

} // verus!
