//! The tree of groups and entries that the shell browses.

use vstd::prelude::*;
use crate::text::text_eq;

verus! {

/// What a field of an entry holds.
pub enum Value {
    /// Text that may be shown.
    PlainText(String),
    /// Text that is shown only on explicit demand.
    Secret(String),
    /// Raw bytes.
    Binary(Vec<u8>),
}

/// A named field of an entry.
pub struct Field {
    pub name: String,
    pub value: Value,
}

/// A leaf of the tree: a credential with its fields, in their stored order.
pub struct Entry {
    pub uuid: u128,
    pub fields: Vec<Field>,
}

/// An inner node of the tree: a named group with its children in order.
pub struct Group {
    pub uuid: u128,
    pub name: String,
    pub children: Vec<Node>,
}

/// A node of the tree.
pub enum Node {
    Group(Group),
    Entry(Entry),
}

/// A borrowed node of the tree.
#[derive(Clone, Copy)]
pub enum NodeRef<'a> {
    Group(&'a Group),
    Entry(&'a Entry),
}

/// The index of the first element of `s`, at or after `from`, that satisfies
/// `p`, if there is one.
pub open spec fn first_index_from<T>(s: Seq<T>, p: spec_fn(T) -> bool, from: int) -> Option<int>
    decreases s.len() - from,
{
    if from < 0 || from >= s.len() {
        None
    } else if p(s[from]) {
        Some(from)
    } else {
        first_index_from(s, p, from + 1)
    }
}

/// The index of the first element of `s` that satisfies `p`, if there is one.
pub open spec fn first_index<T>(s: Seq<T>, p: spec_fn(T) -> bool) -> Option<int> {
    first_index_from(s, p, 0)
}

/// `first_index_from` finds an element that satisfies `p` and that nothing
/// satisfying `p` precedes; it finds none only where none is left.
pub proof fn lemma_first_index_from<T>(s: Seq<T>, p: spec_fn(T) -> bool, from: int)
    requires
        0 <= from,
    ensures
        match first_index_from(s, p, from) {
            Some(i) => from <= i < s.len() && p(s[i]) && forall|j: int| from <= j < i ==> !p(s[j]),
            None => forall|j: int| from <= j < s.len() ==> !p(s[j]),
        },
    decreases s.len() - from,
{
    if from < s.len() && !p(s[from]) {
        lemma_first_index_from(s, p, from + 1);
    }
}

/// The text of a value: plain and secret text have one, bytes have none.
pub open spec fn value_text(v: Value) -> Option<Seq<char>> {
    match v {
        Value::PlainText(s) => Some(s@),
        Value::Secret(s) => Some(s@),
        Value::Binary(_) => None,
    }
}

/// The predicate "the field is called `name`".
pub open spec fn field_named(name: Seq<char>) -> spec_fn(Field) -> bool {
    |f: Field| f.name@ == name
}

/// The value of the first field called `name`.
pub open spec fn field_value(fields: Seq<Field>, name: Seq<char>) -> Option<Value> {
    match first_index(fields, field_named(name)) {
        Some(i) => Some(fields[i].value),
        None => None,
    }
}

/// The text of the first field called `name`, where that field holds text.
pub open spec fn field_text(fields: Seq<Field>, name: Seq<char>) -> Option<Seq<char>> {
    match field_value(fields, name) {
        Some(v) => value_text(v),
        None => None,
    }
}

/// The name of the field that holds an entry's title.
pub open spec fn title_key() -> Seq<char> {
    "Title"@
}

/// The name under which a node is found: a group's name, an entry's title.
/// An entry without a title has none.
pub open spec fn node_name(n: Node) -> Option<Seq<char>> {
    match n {
        Node::Group(g) => Some(g.name@),
        Node::Entry(e) => field_text(e.fields@, title_key()),
    }
}

/// The name under which a node is shown in listings and offered by
/// completion: a group's name, and an entry's title where that is plain
/// text. A secret title is found by those who know it, and never shown.
pub open spec fn node_label(n: Node) -> Option<Seq<char>> {
    match n {
        Node::Group(g) => Some(g.name@),
        Node::Entry(e) => match field_value(e.fields@, title_key()) {
            Some(Value::PlainText(s)) => Some(s@),
            _ => None,
        },
    }
}

/// The predicate "the node is listed under `name`".
pub open spec fn named(name: Seq<char>) -> spec_fn(Node) -> bool {
    |n: Node| node_name(n) == Some(name)
}

/// The predicate "the node is a group with identifier `id`".
pub open spec fn group_with_id(id: u128) -> spec_fn(Node) -> bool {
    |n: Node| n is Group && n->Group_0.uuid == id
}

/// The first child of `g` that is listed under `name`.
pub open spec fn child_named(g: Group, name: Seq<char>) -> Option<Node> {
    match first_index(g.children@, named(name)) {
        Some(i) => Some(g.children@[i]),
        None => None,
    }
}

/// The first child of `g` that is a group with identifier `id`.
pub open spec fn child_group(g: Group, id: u128) -> Option<Group> {
    match first_index(g.children@, group_with_id(id)) {
        Some(i) => Some(g.children@[i]->Group_0),
        None => None,
    }
}

impl Value {
    /// The text that the value holds, if it holds text.
    pub fn text(&self) -> (r: Option<&str>)
        ensures
            match r {
                Some(t) => value_text(*self) == Some(t@),
                None => value_text(*self).is_none(),
            },
    {
        match self {
            Value::PlainText(s) => Some(s.as_str()),
            Value::Secret(s) => Some(s.as_str()),
            Value::Binary(_) => None,
        }
    }
}

impl Entry {
    /// The value of the first field called `key`.
    pub fn field(&self, key: &str) -> (r: Option<&Value>)
        ensures
            match r {
                Some(v) => field_value(self.fields@, key@) == Some(*v),
                None => field_value(self.fields@, key@).is_none(),
            },
    {
        let mut i: usize = 0;
        while i < self.fields.len()
            invariant
                i <= self.fields@.len(),
                first_index(self.fields@, field_named(key@)) == first_index_from(
                    self.fields@,
                    field_named(key@),
                    i as int,
                ),
            decreases self.fields@.len() - i,
        {
            if text_eq(self.fields[i].name.as_str(), key) {
                return Some(&self.fields[i].value);
            }
            i += 1;
        }
        None
    }

    /// The text of the first field called `key`, where that field holds text.
    pub fn get(&self, key: &str) -> (r: Option<&str>)
        ensures
            match r {
                Some(t) => field_text(self.fields@, key@) == Some(t@),
                None => field_text(self.fields@, key@).is_none(),
            },
    {
        match self.field(key) {
            Some(v) => v.text(),
            None => None,
        }
    }

    /// The entry's title, if it has one.
    pub fn get_title(&self) -> (r: Option<&str>)
        ensures
            match r {
                Some(t) => node_name(Node::Entry(*self)) == Some(t@),
                None => node_name(Node::Entry(*self)).is_none(),
            },
    {
        self.get("Title")
    }
}

impl Node {
    /// The node, borrowed.
    pub fn as_ref(&self) -> (r: NodeRef<'_>)
        ensures
            r.node() == *self,
    {
        match self {
            Node::Group(g) => NodeRef::Group(g),
            Node::Entry(e) => NodeRef::Entry(e),
        }
    }

    /// The name under which the node is shown.
    pub fn label(&self) -> (r: Option<&str>)
        ensures
            match r {
                Some(t) => node_label(*self) == Some(t@),
                None => node_label(*self).is_none(),
            },
    {
        match self {
            Node::Group(g) => Some(g.name.as_str()),
            Node::Entry(e) => match e.field("Title") {
                Some(Value::PlainText(s)) => Some(s.as_str()),
                _ => None,
            },
        }
    }

    /// The name under which the node is found.
    pub fn name(&self) -> (r: Option<&str>)
        ensures
            match r {
                Some(t) => node_name(*self) == Some(t@),
                None => node_name(*self).is_none(),
            },
    {
        match self {
            Node::Group(g) => Some(g.name.as_str()),
            Node::Entry(e) => e.get_title(),
        }
    }
}

impl<'a> NodeRef<'a> {
    /// The node that the reference stands for.
    pub open spec fn node(self) -> Node {
        match self {
            NodeRef::Group(g) => Node::Group(*g),
            NodeRef::Entry(e) => Node::Entry(*e),
        }
    }
}

impl Group {
    /// The first child listed under `name`: a group matches by its name, an
    /// entry by its title.
    pub fn find_child(&self, name: &str) -> (r: Option<NodeRef<'_>>)
        ensures
            match r {
                Some(n) => child_named(*self, name@) == Some(n.node()),
                None => child_named(*self, name@).is_none(),
            },
    {
        let mut i: usize = 0;
        while i < self.children.len()
            invariant
                i <= self.children@.len(),
                first_index(self.children@, named(name@)) == first_index_from(
                    self.children@,
                    named(name@),
                    i as int,
                ),
            decreases self.children@.len() - i,
        {
            let hit = match self.children[i].name() {
                Some(t) => text_eq(t, name),
                None => false,
            };
            if hit {
                return Some(self.children[i].as_ref());
            }
            i += 1;
        }
        None
    }

    /// The first child that is a group with identifier `id`.
    pub fn find_child_group(&self, id: u128) -> (r: Option<&Group>)
        ensures
            match r {
                Some(g) => child_group(*self, id) == Some(*g),
                None => child_group(*self, id).is_none(),
            },
    {
        let mut i: usize = 0;
        while i < self.children.len()
            invariant
                i <= self.children@.len(),
                first_index(self.children@, group_with_id(id)) == first_index_from(
                    self.children@,
                    group_with_id(id),
                    i as int,
                ),
            decreases self.children@.len() - i,
        {
            match &self.children[i] {
                Node::Group(g) => {
                    if g.uuid == id {
                        return Some(g);
                    }
                },
                Node::Entry(_) => {},
            }
            i += 1;
        }
        None
    }
}

} // verus!
