//! The session's location in the tree: a stack of group identifiers, moved
//! by `cd`-style paths.

use vstd::prelude::*;
use crate::names::{
    child_at, group_at, in_tree, lemma_child_in_tree, lemma_follow_in_tree, lemma_in_tree_below,
    lemma_in_tree_cases, unique_ids,
};
use crate::path::{descend, resolve};
use crate::text::{split, split_on, text_eq, views};
use crate::tree::{
    child_group, child_named, first_index, group_with_id, lemma_first_index_from, named, Group,
    Node, NodeRef,
};

verus! {

/// The group that a directory stack denotes: from `root`, each identifier in
/// turn names a child group of the group reached so far. The empty stack
/// denotes `root` itself.
pub open spec fn follow(root: Group, stack: Seq<u128>) -> Option<Group>
    decreases stack.len(),
{
    if stack.len() == 0 {
        Some(root)
    } else {
        match follow(root, stack.drop_last()) {
            Some(p) => child_group(p, stack.last()),
            None => None,
        }
    }
}

/// One segment of a move, applied to a stack: `..` drops the last identifier
/// (and leaves the empty stack empty), and any other segment, the empty one
/// and `.` too, must name a child group of the group that the stack denotes,
/// whose identifier is then added. A segment that names an entry or nothing
/// fails.
pub open spec fn step(root: Group, stack: Seq<u128>, seg: Seq<char>) -> Option<Seq<u128>> {
    if seg == ".."@ {
        Some(
            if stack.len() > 0 {
                stack.drop_last()
            } else {
                stack
            },
        )
    } else {
        match follow(root, stack) {
            Some(g) => match child_named(g, seg) {
                Some(Node::Group(c)) => Some(stack.push(c.uuid)),
                _ => None,
            },
            None => None,
        }
    }
}

/// All segments of a move, applied in order; the move fails as a whole as
/// soon as one segment fails.
pub open spec fn walk(root: Group, stack: Seq<u128>, segs: Seq<Seq<char>>) -> Option<Seq<u128>>
    decreases segs.len(),
{
    if segs.len() == 0 {
        Some(stack)
    } else {
        match walk(root, stack, segs.drop_last()) {
            Some(s) => step(root, s, segs.last()),
            None => None,
        }
    }
}

/// The stack that a move along `path` leads to, if the move succeeds: the
/// segments of the path between its slashes are applied in order.
pub open spec fn moved_stack(root: Group, stack: Seq<u128>, path: Seq<char>) -> Option<Seq<u128>> {
    walk(root, stack, split_on(path, '/'))
}

/// A step from a stack that denotes a group leads to a stack that denotes a
/// group.
pub proof fn lemma_step_keeps_valid(root: Group, stack: Seq<u128>, seg: Seq<char>)
    requires
        follow(root, stack).is_some(),
        step(root, stack, seg).is_some(),
    ensures
        follow(root, step(root, stack, seg).unwrap()).is_some(),
{
    if seg != ".."@ {
        let g = follow(root, stack).unwrap();
        let c = child_named(g, seg).unwrap()->Group_0;
        lemma_first_index_from(g.children@, named(seg), 0);
        lemma_first_index_from(g.children@, group_with_id(c.uuid), 0);
        let next = stack.push(c.uuid);
        assert(next.drop_last() =~= stack);
    }
}

/// A move from a stack that denotes a group leads to a stack that denotes a
/// group: no move leaves the session at a group that is not there.
pub proof fn law_move_keeps_location(root: Group, stack: Seq<u128>, segs: Seq<Seq<char>>)
    requires
        follow(root, stack).is_some(),
        walk(root, stack, segs).is_some(),
    ensures
        follow(root, walk(root, stack, segs).unwrap()).is_some(),
    decreases segs.len(),
{
    if segs.len() > 0 {
        law_move_keeps_location(root, stack, segs.drop_last());
        lemma_step_keeps_valid(root, walk(root, stack, segs.drop_last()).unwrap(), segs.last());
    }
}

/// A move that has failed stays failed, whatever segments follow.
pub proof fn lemma_walk_stuck(root: Group, stack: Seq<u128>, segs: Seq<Seq<char>>, i: int)
    requires
        0 <= i < segs.len(),
        walk(root, stack, segs.take(i + 1)).is_none(),
    ensures
        walk(root, stack, segs).is_none(),
    decreases segs.len() - i,
{
    if i + 1 < segs.len() {
        assert(segs.take(i + 2).drop_last() =~= segs.take(i + 1));
        lemma_walk_stuck(root, stack, segs, i + 1);
    } else {
        assert(segs.take(i + 1) =~= segs);
    }
}

/// A move with a failing segment anywhere in it fails as a whole: if
/// segment `i` fails from the stack that the segments before it lead to, the
/// move fails, whatever follows. The stack then stays as it was, as
/// `change_current_group` promises of every failed move.
pub proof fn law_failing_segment_fails_move(
    root: Group,
    stack: Seq<u128>,
    segs: Seq<Seq<char>>,
    i: int,
)
    requires
        0 <= i < segs.len(),
        walk(root, stack, segs.take(i)) matches Some(s) ==> step(root, s, segs[i]).is_none(),
    ensures
        walk(root, stack, segs).is_none(),
{
    assert(segs.take(i + 1).drop_last() =~= segs.take(i));
    assert(segs.take(i + 1).last() == segs[i]);
    lemma_walk_stuck(root, stack, segs, i);
}

/// Moving into a child group and then up again leads back to the stack the
/// move started from.
pub proof fn law_enter_then_up(root: Group, stack: Seq<u128>, name: Seq<char>, id: u128)
    requires
        step(root, stack, name) == Some(stack.push(id)),
    ensures
        walk(root, stack, seq![name, ".."@]) == Some(stack),
{
    let segs = seq![name, ".."@];
    assert(segs.drop_last() =~= seq![name]);
    assert(seq![name].drop_last() =~= Seq::<Seq<char>>::empty());
    assert(walk(root, stack, seq![name].drop_last()) == Some(stack));
    assert(walk(root, stack, seq![name]) == Some(stack.push(id)));
    assert(stack.push(id).drop_last() =~= stack);
}

/// In a tree whose identifiers are unique, entering a child group by its
/// name leads to that very group: the stack with its identifier added
/// denotes it.
pub proof fn law_step_enters_named_group(root: Group, stack: Seq<u128>, name: Seq<char>)
    requires
        unique_ids(root),
        follow(root, stack) is Some,
        child_named(follow(root, stack).unwrap(), name) matches Some(n) && n is Group,
    ensures
        follow(
            root,
            stack.push(child_named(follow(root, stack).unwrap(), name).unwrap()->Group_0.uuid),
        ) == Some(child_named(follow(root, stack).unwrap(), name).unwrap()->Group_0),
{
    let g = follow(root, stack).unwrap();
    let c = child_named(g, name).unwrap()->Group_0;
    let next = stack.push(c.uuid);
    assert(next.drop_last() =~= stack);
    lemma_follow_in_tree(root, stack);
    lemma_first_index_from(g.children@, named(name), 0);
    lemma_first_index_from(g.children@, group_with_id(c.uuid), 0);
    let i = first_index(g.children@, named(name)).unwrap();
    let j = first_index(g.children@, group_with_id(c.uuid)).unwrap();
    let found = g.children@[j]->Group_0;
    assert(child_at(g, i) == Some(c));
    assert(child_at(g, j) == Some(found));
    assert(group_at(c, Seq::<int>::empty()) == Some(c));
    assert(group_at(found, Seq::<int>::empty()) == Some(found));
    lemma_child_in_tree(g, i, c);
    lemma_child_in_tree(g, j, found);
    lemma_in_tree_below(root, g, c);
    lemma_in_tree_below(root, g, found);
}

/// In a tree whose identifiers are unique, a move without `..` goes where
/// the resolver leads: it succeeds exactly where the segments denote a
/// group, seen from the group where the move starts, and the stack then
/// denotes that group.
pub proof fn law_move_follows_resolver(root: Group, stack: Seq<u128>, segs: Seq<Seq<char>>)
    requires
        unique_ids(root),
        follow(root, stack) is Some,
        forall|i: int| 0 <= i < segs.len() ==> segs[i] != ".."@,
    ensures
        match descend(follow(root, stack).unwrap(), segs) {
            Some(Node::Group(h)) => walk(root, stack, segs) is Some && follow(
                root,
                walk(root, stack, segs).unwrap(),
            ) == Some(h),
            _ => walk(root, stack, segs).is_none(),
        },
    decreases segs.len(),
{
    if segs.len() > 0 {
        let before = segs.drop_last();
        law_move_follows_resolver(root, stack, before);
        match descend(follow(root, stack).unwrap(), before) {
            Some(Node::Group(p)) => {
                let s = walk(root, stack, before).unwrap();
                match child_named(p, segs.last()) {
                    Some(Node::Group(c)) => {
                        law_step_enters_named_group(root, s, segs.last());
                    },
                    _ => {},
                }
            },
            _ => {},
        }
    }
}

/// The group that `stack` denotes below `root`.
pub fn resolve_stack<'a>(root: &'a Group, stack: &Vec<u128>) -> (r: Option<&'a Group>)
    ensures
        match r {
            Some(g) => follow(*root, stack@) == Some(*g),
            None => follow(*root, stack@).is_none(),
        },
{
    let mut cur: &'a Group = root;
    let mut i: usize = 0;
    assert(stack@.take(0) =~= Seq::<u128>::empty());
    while i < stack.len()
        invariant
            i <= stack@.len(),
            follow(*root, stack@.take(i as int)) == Some(*cur),
        decreases stack@.len() - i,
    {
        proof {
            assert(stack@.take(i + 1).drop_last() =~= stack@.take(i as int));
            assert(stack@.take(i + 1).last() == stack@[i as int]);
        }
        match cur.find_child_group(stack[i]) {
            Some(g) => {
                cur = g;
            },
            None => {
                proof {
                    lemma_follow_stuck(*root, stack@, i as int);
                }
                return None;
            },
        }
        i += 1;
    }
    assert(stack@.take(i as int) =~= stack@);
    Some(cur)
}

/// Once a stack has lost its way, no further identifier finds it again.
pub proof fn lemma_follow_stuck(root: Group, stack: Seq<u128>, i: int)
    requires
        0 <= i < stack.len(),
        follow(root, stack.take(i + 1)).is_none(),
    ensures
        follow(root, stack).is_none(),
    decreases stack.len() - i,
{
    if i + 1 < stack.len() {
        assert(stack.take(i + 2).drop_last() =~= stack.take(i + 1));
        lemma_follow_stuck(root, stack, i + 1);
    } else {
        assert(stack.take(i + 1) =~= stack);
    }
}

/// A group with identifier `uuid` in the tree of `g`, if there is one.
pub fn find_in_tree(g: &Group, uuid: u128) -> (r: Option<&Group>)
    ensures
        match r {
            Some(h) => in_tree(*g, *h) && h.uuid == uuid,
            None => forall|h: Group| in_tree(*g, h) ==> h.uuid != uuid,
        },
    decreases g,
{
    if g.uuid == uuid {
        assert(group_at(*g, Seq::<int>::empty()) == Some(*g));
        return Some(g);
    }
    let mut i: usize = 0;
    while i < g.children.len()
        invariant
            i <= g.children@.len(),
            g.uuid != uuid,
            forall|j: int, h: Group|
                0 <= j < i && #[trigger] child_at(*g, j) is Some && #[trigger] in_tree(
                    child_at(*g, j).unwrap(),
                    h,
                ) ==> h.uuid != uuid,
        decreases g.children@.len() - i,
    {
        match &g.children[i] {
            Node::Group(c) => {
                assert(child_at(*g, i as int) == Some(*c));
                match find_in_tree(c, uuid) {
                    Some(h) => {
                        proof {
                            lemma_child_in_tree(*g, i as int, *h);
                        }
                        return Some(h);
                    },
                    None => {},
                }
            },
            Node::Entry(_) => {
                assert(child_at(*g, i as int).is_none());
            },
        }
        i += 1;
    }
    proof {
        assert forall|h: Group| in_tree(*g, h) implies h.uuid != uuid by {
            lemma_in_tree_cases(*g, h);
        }
    }
    None
}

/// An open store: its tree and the session's location in it.
pub struct Db {
    pub root: Group,
    /// Identifiers of the groups from below the root down to the current one.
    pub dir_stack: Vec<u128>,
}

/// The session's state: the open store, if one is open.
pub struct State {
    pub db: Option<Db>,
}

impl State {
    /// A session on `root`, located at the root; or a session without a store.
    pub fn new(root: Option<Group>) -> (s: State)
        ensures
            match root {
                Some(g) => s.db is Some && s.db->Some_0.root == g && s.db->Some_0.dir_stack@.len()
                    == 0 && s.db->Some_0.wf(),
                None => s.db is None,
            },
    {
        match root {
            Some(g) => State { db: Some(Db::new(g)) },
            None => State { db: None },
        }
    }
}

impl Db {
    /// The directory stack denotes a group of the tree.
    pub open spec fn wf(&self) -> bool {
        follow(self.root, self.dir_stack@).is_some()
    }

    /// The group where the session stands.
    pub open spec fn current(&self) -> Group {
        follow(self.root, self.dir_stack@).unwrap()
    }

    /// A store located at its root.
    pub fn new(root: Group) -> (db: Db)
        ensures
            db.root == root,
            db.dir_stack@.len() == 0,
            db.wf(),
    {
        Db { root, dir_stack: Vec::new() }
    }

    /// A group of the tree with identifier `uuid`: there is one exactly
    /// where a group is found, and where identifiers are unique it is the
    /// only one.
    pub fn find_group(&self, uuid: u128) -> (r: Option<&Group>)
        ensures
            match r {
                Some(h) => in_tree(self.root, *h) && h.uuid == uuid,
                None => forall|h: Group| in_tree(self.root, h) ==> h.uuid != uuid,
            },
    {
        find_in_tree(&self.root, uuid)
    }

    /// The group where the session stands.
    pub fn get_current_group(&self) -> (g: &Group)
        requires
            self.wf(),
        ensures
            *g == self.current(),
    {
        match resolve_stack(&self.root, &self.dir_stack) {
            Some(g) => g,
            None => &self.root,
        }
    }

    /// The node that `path` denotes, starting at `group`.
    pub fn get_node<'a>(&'a self, group: &'a Group, path: &str) -> (r: Option<NodeRef<'a>>)
        ensures
            match r {
                Some(n) => resolve(*group, path@) == Some(n.node()),
                None => resolve(*group, path@).is_none(),
            },
    {
        group.resolve(path)
    }

    /// Moves the session along `path`, segment by segment, on a working copy
    /// of the stack. Either every segment succeeds and the stack is replaced
    /// by the result, or the stack stays exactly as it was.
    pub fn change_current_group(&mut self, path: &str) -> (moved: bool)
        requires
            old(self).wf(),
        ensures
            final(self).root == old(self).root,
            final(self).wf(),
            moved == moved_stack(old(self).root, old(self).dir_stack@, path@).is_some(),
            final(self).dir_stack@ == match moved_stack(
                old(self).root,
                old(self).dir_stack@,
                path@,
            ) {
                Some(s) => s,
                None => old(self).dir_stack@,
            },
    {
        let segs = split(path, '/');
        let ghost names = views(segs@);
        let ghost start = self.dir_stack@;
        let mut work: Vec<u128> = self.dir_stack.clone();
        let mut i: usize = 0;
        assert(names.take(0) =~= Seq::<Seq<char>>::empty());
        while i < segs.len()
            invariant
                i <= segs@.len(),
                names == views(segs@),
                names == split_on(path@, '/'),
                start == old(self).dir_stack@,
                *self == *old(self),
                self.wf(),
                follow(self.root, work@).is_some(),
                walk(self.root, start, names.take(i as int)) == Some(work@),
            decreases segs@.len() - i,
        {
            let seg = segs[i].as_str();
            proof {
                assert(names.take(i + 1).drop_last() =~= names.take(i as int));
                assert(names.take(i + 1).last() == seg@);
                if step(self.root, work@, seg@).is_some() {
                    lemma_step_keeps_valid(self.root, work@, seg@);
                } else {
                    law_failing_segment_fails_move(self.root, start, names, i as int);
                }
            }
            if text_eq(seg, "..") {
                work.pop();
            } else {
                let here = match resolve_stack(&self.root, &work) {
                    Some(g) => g,
                    None => {
                        return false;
                    },
                };
                match here.find_child(seg) {
                    Some(NodeRef::Group(c)) => {
                        work.push(c.uuid);
                    },
                    _ => {
                        return false;
                    },
                }
            }
            i += 1;
        }
        assert(names.take(i as int) =~= names);
        self.dir_stack = work;
        true
    }
}

} // verus!
