use kpshell::state::{resolve_stack, Db, State};
use kpshell::tree::{Entry, Field, Group, Node, NodeRef, Value};

fn entry(uuid: u128, title: &str) -> Node {
    Node::Entry(Entry {
        uuid,
        fields: vec![Field { name: "Title".to_string(), value: Value::PlainText(title.to_string()) }],
    })
}

fn group(uuid: u128, name: &str, children: Vec<Node>) -> Group {
    Group { uuid, name: name.to_string(), children }
}

/// root
///   Work/        (10)
///     Mail       (11)
///     Servers/   (12)
///       db1      (13)
///   Personal     (20)
///   Dup          (30, entry)
///   Dup/         (31, group)
///     inner      (32)
fn sample() -> Group {
    group(
        1,
        "Root",
        vec![
            Node::Group(group(
                10,
                "Work",
                vec![entry(11, "Mail"), Node::Group(group(12, "Servers", vec![entry(13, "db1")]))],
            )),
            entry(20, "Personal"),
            entry(30, "Dup"),
            Node::Group(group(31, "Dup", vec![entry(32, "inner")])),
        ],
    )
}

fn uuid_of(n: Option<NodeRef<'_>>) -> Option<(bool, u128)> {
    match n {
        Some(NodeRef::Group(g)) => Some((true, g.uuid)),
        Some(NodeRef::Entry(e)) => Some((false, e.uuid)),
        None => None,
    }
}

#[test]
fn empty_and_dot_paths_resolve_to_the_group_itself() {
    let root = sample();
    assert_eq!(uuid_of(root.resolve("")), Some((true, 1)));
    assert_eq!(uuid_of(root.resolve(".")), Some((true, 1)));
    assert_eq!(uuid_of(root.resolve("./")), Some((true, 1)));
    let work = match &root.children[0] {
        Node::Group(g) => g,
        Node::Entry(_) => panic!("Work is a group"),
    };
    assert_eq!(uuid_of(work.resolve("")), Some((true, 10)));
    assert_eq!(uuid_of(work.resolve(".")), Some((true, 10)));
}

#[test]
fn single_segment_matches_group_name_or_entry_title() {
    let root = sample();
    assert_eq!(uuid_of(root.resolve("Work")), Some((true, 10)));
    assert_eq!(uuid_of(root.resolve("Personal")), Some((false, 20)));
    assert_eq!(uuid_of(root.resolve("Nothing")), None);
    assert_eq!(uuid_of(root.resolve("work")), None);
}

#[test]
fn first_child_in_order_wins_among_equal_names() {
    let root = sample();
    assert_eq!(uuid_of(root.resolve("Dup")), Some((false, 30)));
    let twins = group(1, "Root", vec![entry(5, "Same"), entry(6, "Same")]);
    assert_eq!(uuid_of(twins.resolve("Same")), Some((false, 5)));
    let group_first =
        group(1, "Root", vec![Node::Group(group(7, "X", vec![])), entry(8, "X")]);
    assert_eq!(uuid_of(group_first.resolve("X")), Some((true, 7)));
}

#[test]
fn multi_segment_paths_walk_through_groups_only() {
    let root = sample();
    assert_eq!(uuid_of(root.resolve("Work/Mail")), Some((false, 11)));
    assert_eq!(uuid_of(root.resolve("Work/Servers")), Some((true, 12)));
    assert_eq!(uuid_of(root.resolve("Work/Servers/db1")), Some((false, 13)));
    assert_eq!(uuid_of(root.resolve("Work/Mail/deeper")), None);
    assert_eq!(uuid_of(root.resolve("Personal/x")), None);
    assert_eq!(uuid_of(root.resolve("Work/Nothing/db1")), None);
    // the first child called Dup is an entry, so nothing lies below that name
    assert_eq!(uuid_of(root.resolve("Dup/inner")), None);
    // `..` is no child's name
    assert_eq!(uuid_of(root.resolve("Work/..")), None);
}

#[test]
fn entry_without_title_is_never_found_by_name() {
    let untitled = Node::Entry(Entry {
        uuid: 9,
        fields: vec![Field { name: "UserName".to_string(), value: Value::PlainText("".to_string()) }],
    });
    let binary_title = Node::Entry(Entry {
        uuid: 10,
        fields: vec![Field { name: "Title".to_string(), value: Value::Binary(vec![65]) }],
    });
    let secret_title = Node::Entry(Entry {
        uuid: 11,
        fields: vec![Field { name: "Title".to_string(), value: Value::Secret("S".to_string()) }],
    });
    let root = group(1, "Root", vec![untitled, binary_title, secret_title]);
    assert_eq!(uuid_of(root.resolve("A")), None);
    assert_eq!(uuid_of(root.resolve("UserName")), None);
    assert_eq!(uuid_of(root.resolve("S")), Some((false, 11)));
}

#[test]
fn cd_into_group_then_up_restores_the_stack() {
    let mut db = Db::new(sample());
    let before = db.dir_stack.clone();
    assert!(db.change_current_group("Work"));
    assert_eq!(db.dir_stack, vec![10]);
    assert_eq!(db.get_current_group().uuid, 10);
    assert!(db.change_current_group(".."));
    assert_eq!(db.dir_stack, before);
    assert_eq!(db.get_current_group().uuid, 1);
}

#[test]
fn cd_to_missing_group_fails_and_stays_at_root() {
    let mut db = Db::new(sample());
    assert!(!db.change_current_group("NoSuchGroup"));
    assert!(db.dir_stack.is_empty());
    assert_eq!(db.get_current_group().uuid, 1);
}

#[test]
fn cd_to_entry_fails() {
    let mut db = Db::new(sample());
    assert!(!db.change_current_group("Personal"));
    assert!(db.dir_stack.is_empty());
    assert!(!db.change_current_group("Work/Mail"));
    assert!(db.dir_stack.is_empty());
}

#[test]
fn failing_segment_anywhere_leaves_the_stack_untouched() {
    let mut db = Db::new(sample());
    assert!(db.change_current_group("Work"));
    let before = db.dir_stack.clone();
    assert!(!db.change_current_group("Servers/Nope"));
    assert_eq!(db.dir_stack, before);
    assert!(!db.change_current_group("Nope/Servers"));
    assert_eq!(db.dir_stack, before);
    assert!(!db.change_current_group("../Work/Servers/db1"));
    assert_eq!(db.dir_stack, before);
    assert!(!db.change_current_group("Servers/../../Nope"));
    assert_eq!(db.dir_stack, before);
}

#[test]
fn multi_segment_moves_and_parent_steps() {
    let mut db = Db::new(sample());
    assert!(db.change_current_group("Work/Servers"));
    assert_eq!(db.dir_stack, vec![10, 12]);
    assert!(db.change_current_group("../.."));
    assert!(db.dir_stack.is_empty());
    assert!(db.change_current_group("Work/../Work/Servers/.."));
    assert_eq!(db.dir_stack, vec![10]);
}

#[test]
fn parent_of_root_is_root() {
    let mut db = Db::new(sample());
    assert!(db.change_current_group(".."));
    assert!(db.dir_stack.is_empty());
    assert!(db.change_current_group("../../Work"));
    assert_eq!(db.dir_stack, vec![10]);
}

#[test]
fn empty_and_dot_segments_are_names_like_any_other() {
    let mut db = Db::new(sample());
    assert!(!db.change_current_group(""));
    assert!(!db.change_current_group("."));
    assert!(!db.change_current_group("./"));
    assert!(!db.change_current_group("Work/"));
    assert!(!db.change_current_group("./Work"));
    assert!(!db.change_current_group("Work/./Servers"));
    assert!(!db.change_current_group("/"));
    assert!(db.dir_stack.is_empty());
    let odd = group(
        1,
        "Root",
        vec![Node::Group(group(2, "", vec![])), Node::Group(group(3, ".", vec![]))],
    );
    let mut db = Db::new(odd);
    assert!(db.change_current_group("../"));
    assert_eq!(db.dir_stack, vec![2]);
    assert!(db.change_current_group("../."));
    assert_eq!(db.dir_stack, vec![3]);
}

#[test]
fn get_node_resolves_from_the_given_group() {
    let mut db = Db::new(sample());
    assert!(db.change_current_group("Work"));
    let here = db.get_current_group();
    assert_eq!(uuid_of(db.get_node(here, "Servers/db1")), Some((false, 13)));
    assert_eq!(uuid_of(db.get_node(here, "Personal")), None);
    assert_eq!(uuid_of(db.get_node(&db.root, "Personal")), Some((false, 20)));
}

#[test]
fn find_group_searches_the_whole_tree() {
    let db = Db::new(sample());
    assert_eq!(db.find_group(1).map(|g| g.name.clone()), Some("Root".to_string()));
    assert_eq!(db.find_group(12).map(|g| g.name.clone()), Some("Servers".to_string()));
    assert_eq!(db.find_group(31).map(|g| g.name.clone()), Some("Dup".to_string()));
    // 13 is an entry, 99 is nothing
    assert!(db.find_group(13).is_none());
    assert!(db.find_group(99).is_none());
}

#[test]
fn resolve_stack_follows_identifiers_from_the_root() {
    let root = sample();
    assert_eq!(resolve_stack(&root, &vec![]).map(|g| g.uuid), Some(1));
    assert_eq!(resolve_stack(&root, &vec![10, 12]).map(|g| g.uuid), Some(12));
    assert!(resolve_stack(&root, &vec![12]).is_none());
    assert!(resolve_stack(&root, &vec![10, 11]).is_none());
}

#[test]
fn state_starts_at_the_root_or_without_a_store() {
    let s = State::new(Some(sample()));
    assert!(s.db.as_ref().is_some_and(|db| db.dir_stack.is_empty() && db.root.uuid == 1));
    assert!(State::new(None).db.is_none());
}
