//! Resolving a slash-separated path against a group.

use vstd::prelude::*;
use crate::text::{split, split_on, text_eq, views};
use crate::tree::{child_named, lemma_first_index_from, named, node_name, Group, Node, NodeRef};

verus! {

/// The paths that denote the starting group itself.
pub open spec fn is_self_path(path: Seq<char>) -> bool {
    path == ""@ || path == "."@ || path == "./"@
}

/// Walking down from `g` along `segs`: every segment is looked up among the
/// children of the group reached so far. A segment that follows an entry, or
/// that names no child, fails the walk.
pub open spec fn descend(g: Group, segs: Seq<Seq<char>>) -> Option<Node>
    decreases segs.len(),
{
    if segs.len() == 0 {
        Some(Node::Group(g))
    } else {
        match descend(g, segs.drop_last()) {
            Some(Node::Group(p)) => child_named(p, segs.last()),
            _ => None,
        }
    }
}

/// The node that `path` denotes, starting at `g`.
pub open spec fn resolve(g: Group, path: Seq<char>) -> Option<Node> {
    if is_self_path(path) {
        Some(Node::Group(g))
    } else {
        descend(g, split_on(path, '/'))
    }
}

/// Once a walk has failed, no further segment revives it.
pub proof fn lemma_descend_stuck(g: Group, segs: Seq<Seq<char>>, i: int)
    requires
        0 <= i < segs.len(),
        descend(g, segs.take(i + 1)).is_none(),
    ensures
        descend(g, segs).is_none(),
    decreases segs.len() - i,
{
    if i + 1 < segs.len() {
        assert(segs.take(i + 2).drop_last() =~= segs.take(i + 1));
        lemma_descend_stuck(g, segs, i + 1);
    } else {
        assert(segs.take(i + 1) =~= segs);
    }
}

/// The empty path and `.` both denote the group they start from.
pub proof fn law_resolution_identity(g: Group)
    ensures
        resolve(g, ""@) == Some(Node::Group(g)),
        resolve(g, "."@) == Some(Node::Group(g)),
{
}

/// Among children that share a name, the first in child order is the one
/// that the name denotes.
pub proof fn law_first_match_wins(g: Group, name: Seq<char>, i: int)
    requires
        0 <= i < g.children@.len(),
        node_name(g.children@[i]) == Some(name),
        forall|k: int| 0 <= k < i ==> node_name(g.children@[k]) != Some(name),
    ensures
        child_named(g, name) == Some(g.children@[i]),
{
    lemma_first_index_from(g.children@, named(name), 0);
}

/// A one-segment path that is not a self path denotes the first child listed
/// under it.
pub proof fn law_single_segment(g: Group, segment: Seq<char>)
    ensures
        descend(g, seq![segment]) == child_named(g, segment),
{
    assert(seq![segment].drop_last() =~= Seq::<Seq<char>>::empty());
    assert(descend(g, seq![segment].drop_last()) == Some(Node::Group(g)));
}

impl Group {
    /// The node that `path` denotes, starting at this group: the group itself
    /// for the empty path, `.` and `./`; otherwise the node reached segment by
    /// segment, where every segment but the last must name a group.
    pub fn resolve<'a>(&'a self, path: &str) -> (r: Option<NodeRef<'a>>)
        ensures
            match r {
                Some(n) => resolve(*self, path@) == Some(n.node()),
                None => resolve(*self, path@).is_none(),
            },
    {
        if text_eq(path, "") || text_eq(path, ".") || text_eq(path, "./") {
            return Some(NodeRef::Group(self));
        }
        let segs = split(path, '/');
        let ghost names = views(segs@);
        let mut cur: NodeRef<'a> = NodeRef::Group(self);
        let mut i: usize = 0;
        assert(names.take(0) =~= Seq::<Seq<char>>::empty());
        while i < segs.len()
            invariant
                i <= segs@.len(),
                names == views(segs@),
                names == split_on(path@, '/'),
                !is_self_path(path@),
                descend(*self, names.take(i as int)) == Some(cur.node()),
            decreases segs@.len() - i,
        {
            proof {
                assert(names.take(i + 1).drop_last() =~= names.take(i as int));
                assert(names.take(i + 1).last() == segs@[i as int]@);
            }
            match cur {
                NodeRef::Group(g) => {
                    match g.find_child(segs[i].as_str()) {
                        Some(n) => {
                            cur = n;
                        },
                        None => {
                            proof {
                                lemma_descend_stuck(*self, names, i as int);
                            }
                            return None;
                        },
                    }
                },
                NodeRef::Entry(_) => {
                    proof {
                        lemma_descend_stuck(*self, names, i as int);
                    }
                    return None;
                },
            }
            i += 1;
        }
        assert(names.take(i as int) =~= names);
        Some(cur)
    }
}

} // verus!
