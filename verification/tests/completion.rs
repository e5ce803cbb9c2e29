use kpshell::command::Command;
use kpshell::completion::without_dashes;
use kpshell::editor_helper::{
    byte_count, find_token_start, is_blank_char, EditorHelper, PasswordInput,
};
use kpshell::executor::Executor;
use kpshell::grammar::{Flag, FlagSet, Verb};
use kpshell::index::{make_index, names_with_prefix};
use kpshell::names::get_all_prefixes_under_group;
use kpshell::tree::{Entry, Field, Group, Node, Value};

fn entry(uuid: u128, title: &str) -> Node {
    Node::Entry(Entry {
        uuid,
        fields: vec![Field { name: "Title".to_string(), value: Value::PlainText(title.to_string()) }],
    })
}

fn group(uuid: u128, name: &str, children: Vec<Node>) -> Group {
    Group { uuid, name: name.to_string(), children }
}

fn sample() -> Group {
    group(
        1,
        "Root",
        vec![
            Node::Group(group(
                10,
                "Work",
                vec![entry(11, "Mail"), Node::Group(group(12, "Servers", vec![entry(13, "db1")]))],
            )),
            entry(20, "MySite"),
            entry(21, "MyLogin"),
            entry(22, "Other"),
            Node::Group(group(30, "Home", vec![entry(31, "MyRouter")])),
        ],
    )
}

fn strings(v: &[&str]) -> Vec<String> {
    v.iter().map(|s| s.to_string()).collect()
}

fn helper_on(root: &Group) -> EditorHelper {
    let mut h = EditorHelper::new();
    h.create_db_entries(root);
    h
}

#[test]
fn start_of_line_offers_every_command() {
    let h = EditorHelper::new();
    assert_eq!(
        h.complete("", 0),
        (0, strings(&["ls", "cd", "show", "cp", "cu", "cw", "cx", "open", "close"]))
    );
    assert_eq!(h.complete("sho", 0).1.len(), 9);
}

#[test]
fn sho_completes_to_show() {
    let h = EditorHelper::new();
    assert_eq!(h.complete("sho", 3), (0, strings(&["show"])));
}

#[test]
fn first_word_is_completed_by_prefix() {
    let h = EditorHelper::new();
    assert_eq!(h.complete("c", 1), (0, strings(&["cd", "close", "cp", "cu", "cw", "cx"])));
    assert_eq!(h.complete("cl", 2), (0, strings(&["close"])));
    assert_eq!(h.complete("x", 1), (0, strings(&[])));
    assert_eq!(h.find_cmds_starting_with(""), strings(&["cd", "close", "cp", "cu", "cw", "cx", "ls", "open", "show"]));
}

#[test]
fn nothing_is_offered_in_the_middle_of_the_line() {
    let h = helper_on(&sample());
    assert_eq!(h.complete("show My", 4), (0, strings(&[])));
    assert_eq!(h.complete("sho", 2), (0, strings(&[])));
    assert_eq!(h.complete("sho", 9), (0, strings(&[])));
}

#[test]
fn show_my_offers_both_entries_of_the_current_group() {
    let h = helper_on(&sample());
    assert_eq!(h.complete("show My", 7), (5, strings(&["MyLogin", "MySite"])));
}

#[test]
fn operand_after_a_blank_offers_all_names_of_the_group() {
    let h = helper_on(&sample());
    assert_eq!(
        h.complete("show ", 5),
        (5, strings(&["Home", "MyLogin", "MySite", "Other", "Work"]))
    );
    assert_eq!(h.complete("ls W", 4), (3, strings(&["Work"])));
    assert_eq!(h.complete("cd Zz", 5), (3, strings(&[])));
}

#[test]
fn operands_of_other_kinds_are_not_completed() {
    let h = helper_on(&sample());
    assert_eq!(h.complete("open W", 6), (5, strings(&[])));
    assert_eq!(h.complete("cx ", 3), (3, strings(&[])));
    assert_eq!(h.complete("nothing W", 9), (8, strings(&[])));
}

#[test]
fn completion_is_scoped_to_the_current_group() {
    let root = sample();
    let mut h = helper_on(&root);
    let mut ex = Executor::new(Some(root));
    assert!(ex.execute(Command::ChangeDir { path: "Work".to_string() }, &mut h).is_ok());
    assert_eq!(h.dir_stack(), &vec![10]);
    assert_eq!(h.complete("show ", 5), (5, strings(&["Mail", "Servers"])));
    assert_eq!(h.complete("show My", 7), (5, strings(&[])));
    assert!(ex.execute(Command::ChangeDir { path: "../Home".to_string() }, &mut h).is_ok());
    assert_eq!(h.complete("show My", 7), (5, strings(&["MyRouter"])));
    assert!(ex.execute(Command::ChangeDir { path: "..".to_string() }, &mut h).is_ok());
    assert_eq!(h.complete("show My", 7), (5, strings(&["MyLogin", "MySite"])));
}

#[test]
fn failed_move_leaves_completion_where_it_was() {
    let root = sample();
    let mut h = helper_on(&root);
    let mut ex = Executor::new(Some(root));
    assert!(ex.execute(Command::ChangeDir { path: "Work".to_string() }, &mut h).is_ok());
    assert!(ex.execute(Command::ChangeDir { path: "Servers/Nope".to_string() }, &mut h).is_err());
    assert_eq!(h.dir_stack(), &vec![10]);
    assert_eq!(h.complete("ls ", 3), (3, strings(&["Mail", "Servers"])));
}

#[test]
fn group_without_name_set_offers_nothing() {
    let mut h = helper_on(&sample());
    h.set_dir_stack(vec![999]);
    assert_eq!(h.complete("show ", 5), (5, strings(&[])));
    let empty = EditorHelper::new();
    assert_eq!(empty.complete("show ", 5), (5, strings(&[])));
}

#[test]
fn clear_db_forgets_names_and_location() {
    let mut h = helper_on(&sample());
    h.set_dir_stack(vec![10]);
    h.clear_db();
    assert!(h.dir_stack().is_empty());
    assert!(!h.has_names_for(1));
    assert!(!h.has_names_for(10));
    assert_eq!(h.complete("show ", 5), (5, strings(&[])));
    assert_eq!(h.complete("sho", 3), (0, strings(&["show"])));
}

#[test]
fn single_dash_offers_letters_and_long_spellings() {
    let h = EditorHelper::new();
    assert_eq!(h.complete("show -", 6), (6, strings(&["s", "t", "-totp"])));
}

#[test]
fn letters_after_a_single_dash_offer_nothing() {
    let h = EditorHelper::new();
    assert_eq!(h.complete("show -s", 7), (7, strings(&[])));
    assert_eq!(h.complete("show -t", 7), (7, strings(&[])));
}

#[test]
fn double_dash_offers_the_rest_of_long_spellings() {
    let h = EditorHelper::new();
    assert_eq!(h.complete("show --", 7), (7, strings(&["totp"])));
    assert_eq!(h.complete("show --to", 9), (9, strings(&["tp"])));
    assert_eq!(h.complete("show --totp", 11), (11, strings(&[""])));
    assert_eq!(h.complete("show --x", 8), (8, strings(&[])));
}

#[test]
fn used_flags_are_not_offered_again() {
    let h = EditorHelper::new();
    assert_eq!(h.complete("show -s -", 9), (9, strings(&["t", "-totp"])));
    assert_eq!(h.complete("show --totp -", 13), (13, strings(&["s"])));
    assert_eq!(h.complete("show -t -", 9), (9, strings(&["s"])));
    assert_eq!(h.complete("show -t --", 10), (10, strings(&[])));
    assert_eq!(h.complete("show -s X -t -", 14), (14, strings(&[])));
    assert_eq!(h.complete("show -st -", 10), (10, strings(&[])));
    assert_eq!(h.complete("show -ts --", 11), (11, strings(&[])));
}

#[test]
fn commands_without_flags_offer_none() {
    let h = EditorHelper::new();
    assert_eq!(h.complete("ls -", 4), (4, strings(&[])));
    assert_eq!(h.complete("nothing -", 9), (9, strings(&[])));
}

#[test]
fn after_a_blank_operands_are_offered_at_the_cursor() {
    let h = helper_on(&sample());
    let all = strings(&["Home", "MyLogin", "MySite", "Other", "Work"]);
    assert_eq!(h.complete("show -s ", 8), (8, all.clone()));
    assert_eq!(h.complete("show My ", 8), (8, all.clone()));
    assert_eq!(h.complete("ls\t", 3), (3, all));
    // a line of blanks has no words
    assert_eq!(h.complete("  ", 2), (0, strings(&[])));
}

#[test]
fn replacement_starts_where_the_word_starts() {
    let root = group(
        1,
        "Root",
        vec![entry(2, "My Login"), entry(3, "My Site"), entry(4, "Mine"), entry(5, "Ünder")],
    );
    let h = helper_on(&root);
    // leading blanks are not part of the command's name
    assert_eq!(h.complete("  sho", 5), (2, strings(&["show"])));
    assert_eq!(h.complete("show   Mi", 9), (7, strings(&["Mine"])));
    // an escaped blank belongs to the word
    assert_eq!(h.complete("show My\\ L", 10), (5, strings(&["My Login"])));
    // so does a quoted one
    assert_eq!(h.complete("show 'My '", 10), (5, strings(&["My Login", "My Site"])));
    assert_eq!(h.complete("show -s \"My S\"", 14), (8, strings(&["My Site"])));
    // positions count bytes
    assert_eq!(h.complete("show Ü", 7), (5, strings(&["Ünder"])));
    assert_eq!(h.complete("ls Ünder M", 11), (10, strings(&["Mine", "My Login", "My Site"])));
    // an open quote leaves no words
    assert_eq!(h.complete("show 'My", 8), (0, strings(&[])));
}

#[test]
fn token_start_is_found_by_splitting_prefixes() {
    assert_eq!(find_token_start("show My", &strings(&["show", "My"])), Some(5));
    assert_eq!(find_token_start("show  'a b'", &strings(&["show", "a b"])), Some(6));
    assert_eq!(find_token_start(" ls", &strings(&["ls"])), Some(1));
    assert_eq!(find_token_start("ls", &strings(&["ls"])), Some(0));
    assert_eq!(find_token_start("show My", &strings(&["other", "My"])), None);
}

#[test]
fn complete_words_works_on_given_words() {
    let h = helper_on(&sample());
    let all = strings(&["Home", "MyLogin", "MySite", "Other", "Work"]);
    assert_eq!(h.complete_words(&strings(&[]), 3, true, 0), (0, strings(&[])));
    assert_eq!(
        h.complete_words(&strings(&["show", "My"]), 7, true, 5),
        (5, strings(&["MyLogin", "MySite"]))
    );
    assert_eq!(
        h.complete_words(&strings(&["show", "-"]), 6, true, 5),
        (6, strings(&["s", "t", "-totp"]))
    );
    assert_eq!(h.complete_words(&strings(&["show", "-"]), 7, false, 0), (7, all.clone()));
    assert_eq!(h.complete_words(&strings(&["sh"]), 2, true, 0), (0, strings(&["show"])));
    assert_eq!(h.complete_words(&strings(&["ls"]), 3, false, 0), (3, all));
}

#[test]
fn flag_helpers() {
    assert_eq!(without_dashes("--totp"), "totp");
    assert_eq!(without_dashes("-s"), "s");
    assert_eq!(without_dashes("plain"), "plain");
    assert_eq!(without_dashes("---"), "");
    assert_eq!(without_dashes("-a-b"), "a-b");
    let none = FlagSet::empty();
    let both = FlagSet { show_hidden: true, totp: true };
    assert_eq!(Verb::Show.flags_of_word("--totp", none), FlagSet { show_hidden: false, totp: true });
    assert_eq!(Verb::Show.flags_of_word("-t", none), FlagSet { show_hidden: false, totp: true });
    assert_eq!(Verb::Show.flags_of_word("-s", none), FlagSet { show_hidden: true, totp: false });
    assert_eq!(Verb::Show.flags_of_word("-st", none), both);
    assert_eq!(Verb::Show.flags_of_word("-xsx", none), FlagSet { show_hidden: true, totp: false });
    assert_eq!(Verb::Show.flags_of_word("totp", none), none);
    assert_eq!(Verb::Show.flags_of_word("--s", none), none);
    assert_eq!(Verb::Show.flags_of_word("-", none), none);
    assert_eq!(Verb::Show.flags_of_word("x", both), both);
    assert_eq!(Verb::ListDir.flags_of_word("-s", none), none);
    let used = Verb::Show.used_flags(&strings(&["show", "-s", "x", "--totp", "-"]));
    assert_eq!(used, FlagSet { show_hidden: true, totp: true });
    // the last word is the one being typed
    let used = Verb::Show.used_flags(&strings(&["show", "-s", "-t"]));
    assert_eq!(used, FlagSet { show_hidden: true, totp: false });
    assert_eq!(Flag::Totp.offers("", true), strings(&["t", "-totp"]));
    assert_eq!(Flag::ShowHidden.offers("", true), strings(&["s"]));
    assert_eq!(Flag::ShowHidden.offers("", false), strings(&[]));
    assert_eq!(Flag::Totp.offers("to", false), strings(&["tp"]));
    let h = EditorHelper::new();
    assert_eq!(
        h.find_non_positional_args("show", "", true, FlagSet { show_hidden: true, totp: false }),
        strings(&["t", "-totp"])
    );
}

#[test]
fn grammar_tables() {
    assert_eq!(Verb::from_name("cw"), Some(Verb::CopyURL));
    assert_eq!(Verb::from_name("help"), None);
    assert_eq!(Verb::Show.flags(), vec![Flag::ShowHidden, Flag::Totp]);
    assert!(Verb::ListDir.flags().is_empty());
    assert_eq!(Verb::OpenDB.min_operands(), 2);
    assert_eq!(Verb::OpenDB.max_operands(), 2);
    assert_eq!(Verb::ListDir.min_operands(), 0);
    assert_eq!(Verb::ListDir.max_operands(), 1);
    assert!(Verb::Show.takes_tree_path());
    assert!(!Verb::OpenDB.takes_tree_path());
    assert_eq!(Verb::Show.short_flag('t'), Some(Flag::Totp));
    assert_eq!(Verb::Show.long_flag("totp"), Some(Flag::Totp));
    assert_eq!(Verb::Show.long_flag("s"), None);
    assert!(FlagSet::empty().insert(Flag::Totp).contains(Flag::Totp));
    assert!(!FlagSet::empty().insert(Flag::Totp).contains(Flag::ShowHidden));
}

#[test]
fn name_sets_hold_each_name_once_in_byte_order() {
    let set = make_index(strings(&["b", "a", "ab", "a", "B", "é"])).unwrap();
    assert_eq!(names_with_prefix(&set, ""), strings(&["B", "a", "ab", "b", "é"]));
    assert_eq!(names_with_prefix(&set, "a"), strings(&["a", "ab"]));
    assert_eq!(names_with_prefix(&set, "ab"), strings(&["ab"]));
    assert_eq!(names_with_prefix(&set, "abc"), strings(&[]));
    let none = make_index(strings(&[])).unwrap();
    assert_eq!(names_with_prefix(&none, ""), strings(&[]));
}

#[test]
fn names_under_a_group_come_in_child_order() {
    let root = sample();
    assert_eq!(
        get_all_prefixes_under_group(&root),
        strings(&["Work", "MySite", "MyLogin", "Other", "Home"])
    );
    let untitled = Node::Entry(Entry { uuid: 5, fields: vec![] });
    let g = group(1, "G", vec![untitled, entry(6, "x")]);
    assert_eq!(get_all_prefixes_under_group(&g), strings(&["x"]));
}

#[test]
fn every_group_of_the_tree_gets_a_name_set() {
    let h = helper_on(&sample());
    assert_eq!(h.db_root(), 1);
    for id in [1, 10, 12, 30] {
        assert!(h.has_names_for(id));
    }
    for id in [0, 11, 13, 20, 21, 22, 31] {
        assert!(!h.has_names_for(id));
    }
}

#[test]
fn validate_accepts_commands_and_explains_the_rest() {
    let h = EditorHelper::new();
    assert_eq!(h.validate("ls Work"), None);
    assert_eq!(h.validate("show -s 'My Login'"), None);
    assert_eq!(h.validate("show"), Some("\nerror: a required argument is missing for: show".to_string()));
    assert_eq!(h.validate("bogus"), Some("\nerror: unrecognized command: bogus".to_string()));
    assert_eq!(h.validate("ls NoSuchThing"), None);
    assert!(!h.validate_while_typing());
    assert_eq!(h.hint("sho", 3), None);
}

#[test]
fn elected_candidates_are_quoted_where_needed() {
    let h = EditorHelper::new();
    assert_eq!(h.update("MyLogin"), "MyLogin");
    assert_eq!(h.update("My Login"), "'My Login'");
}

#[test]
fn password_prompt_shows_stars() {
    let p = PasswordInput;
    assert_eq!(p.highlight("abc", 3), "***");
    assert_eq!(p.highlight("", 0), "");
    assert_eq!(p.highlight("é", 2), "**");
    assert!(p.highlight_char("abc", 1));
}

#[test]
fn byte_counts_and_blanks() {
    assert_eq!(byte_count("abc"), 3);
    assert_eq!(byte_count("é"), 2);
    assert!(is_blank_char(' '));
    assert!(is_blank_char('\t'));
    assert!(is_blank_char('\n'));
    assert!(!is_blank_char('x'));
}
