//! Carrying out commands on the session.

use vstd::prelude::*;
use vstd::string::StringExecFns;
use crate::command::{Command, CommandModel};
use crate::display::{
    clipboard_effects, copy_effects, copy_entry_field, list_lines, list_node, models, print_node,
    print_value_as_osc52, prints, show_effects, Effect, EffectModel,
};
use crate::editor_helper::{law_completion_scoped, EditorHelper};
use crate::grammar::Verb;
use crate::path::resolve;
use crate::state::{moved_stack, Db, State};
use crate::text::views;
use crate::names::unique_ids;
use crate::tree::{node_label, node_name, Group, Node, NodeRef};

verus! {

/// The session: the state that commands read and change.
pub struct Executor {
    pub state: State,
}

/// The name of the field that a copying command copies.
pub open spec fn copied_field(v: Verb) -> Seq<char> {
    match v {
        Verb::CopyUsername => "UserName"@,
        Verb::CopyURL => "URL"@,
        _ => "Password"@,
    }
}

/// What a command on an open store shows, or the complaint it ends with.
pub open spec fn store_outcome(db: Db, c: CommandModel) -> Result<Seq<EffectModel>, Seq<char>> {
    match c.verb {
        Verb::ListDir => match resolve(db.current(), c.first) {
            Some(n) => Ok(prints(list_lines(n))),
            None => Err(c.first + " does not exist!"@),
        },
        Verb::ChangeDir => match moved_stack(db.root, db.dir_stack@, c.first) {
            Some(_) => Ok(Seq::empty()),
            None => Err(c.first + " is not a group or doesn't exist!"@),
        },
        Verb::Show => match resolve(db.current(), c.first) {
            Some(n) => Ok(show_effects(n, c.flags.show_hidden, c.flags.totp)),
            None => Err(c.first + " does not exist!"@),
        },
        _ => match resolve(db.current(), c.first) {
            Some(Node::Entry(e)) => Ok(copy_effects(e, copied_field(c.verb))),
            _ => Err(c.first + " is not a group or doesn't exist!"@),
        },
    }
}

/// What a command shows, or the complaint it ends with. Clearing the
/// clipboard needs no store; opening needs that none is open; every other
/// command needs an open store.
pub open spec fn outcome(db: Option<Db>, c: CommandModel) -> Result<Seq<EffectModel>, Seq<char>> {
    match c.verb {
        Verb::ClearClipboard => Ok(clipboard_effects(Seq::empty())),
        Verb::OpenDB => match db {
            Some(_) => Err("Database already opened!"@),
            None => Ok(seq![EffectModel::Open { path: c.first, password: c.second }]),
        },
        Verb::CloseDB => match db {
            Some(_) => Ok(seq![EffectModel::Print("Closing database!"@)]),
            None => Err("No database opened!"@),
        },
        _ => match db {
            Some(d) => store_outcome(d, c),
            None => Err("Database not opened"@),
        },
    }
}

/// Whether `r` is the given outcome.
pub open spec fn is_outcome(
    r: Result<Vec<Effect>, String>,
    expected: Result<Seq<EffectModel>, Seq<char>>,
) -> bool {
    match r {
        Ok(effects) => expected == Ok::<Seq<EffectModel>, Seq<char>>(models(effects@)),
        Err(m) => expected == Err::<Seq<EffectModel>, Seq<char>>(m@),
    }
}

/// While the editor's helper is in step with a session on a tree whose
/// identifiers are unique, what completion offers for an operand are names
/// of direct children of the group where the session stands.
pub proof fn law_session_completion_scoped(
    ex: Executor,
    helper: EditorHelper,
    cmd: Seq<char>,
    prefix: Seq<char>,
    out: Seq<Seq<char>>,
    i: int,
)
    requires
        ex.wf(),
        ex.state.db is Some,
        ex.in_step(&helper),
        unique_ids(ex.state.db->Some_0.root),
        helper.operand_listing(cmd, prefix, out),
        0 <= i < out.len(),
    ensures
        exists|k: int|
            0 <= k < ex.state.db->Some_0.current().children@.len() && node_label(
                ex.state.db->Some_0.current().children@[k],
            ) == Some(out[i]),
{
    let db = ex.state.db->Some_0;
    law_completion_scoped(helper, db.root, cmd, prefix, out, i);
    let g = crate::state::follow(db.root, helper.stack()).unwrap();
    let k = choose|k: int|
        0 <= k < g.children@.len() && node_label(g.children@[k]) == Some(out[i]) && node_name(
            g.children@[k],
        ) == Some(out[i]);
    assert(db.current() == g);
    assert(node_label(db.current().children@[k]) == Some(out[i]));
}

/// The text `head` followed by `tail`.
fn joined(head: &String, tail: &str) -> (r: String)
    ensures
        r@ == head@ + tail@,
{
    let mut r = head.clone();
    r.append(tail);
    r
}

/// One printed line for each of the given texts.
fn print_all(lines: Vec<String>) -> (out: Vec<Effect>)
    ensures
        models(out@) == prints(views(lines@)),
{
    let mut out: Vec<Effect> = Vec::new();
    let mut i: usize = 0;
    while i < lines.len()
        invariant
            i <= lines@.len(),
            out@.len() == i,
            forall|j: int| 0 <= j < i ==> out@[j].model() == EffectModel::Print(lines@[j]@),
        decreases lines@.len() - i,
    {
        out.push(Effect::Print(lines[i].clone()));
        i += 1;
    }
    assert(models(out@) =~= prints(views(lines@)));
    out
}

impl Executor {
    /// The open store's location denotes a group.
    pub open spec fn wf(&self) -> bool {
        self.state.db matches Some(db) ==> db.wf()
    }

    /// The editor's helper is in step with the session: with a store open,
    /// it holds the session's location and the names of the store's tree;
    /// without one, it holds neither.
    pub open spec fn in_step(&self, helper: &EditorHelper) -> bool {
        match self.state.db {
            Some(db) => helper.stack() == db.dir_stack@ && helper.describes(db.root),
            None => helper.stack().len() == 0 && helper.entries() == Map::<
                u128,
                fst::Set<Vec<u8>>,
            >::empty(),
        }
    }

    /// A session on the tree of `root`, or one without a store.
    pub fn new(root: Option<Group>) -> (ex: Executor)
        ensures
            ex.wf(),
            match root {
                Some(g) => ex.state.db is Some && ex.state.db->Some_0.root == g
                    && ex.state.db->Some_0.dir_stack@.len() == 0,
                None => ex.state.db is None,
            },
    {
        Executor { state: State::new(root) }
    }

    /// The name of the group where the session stands.
    pub fn get_current_group_name(&self) -> (r: Option<&str>)
        requires
            self.wf(),
        ensures
            match self.state.db {
                Some(db) => r is Some && r->Some_0@ == db.current().name@,
                None => r.is_none(),
            },
    {
        match &self.state.db {
            Some(db) => Some(db.get_current_group().name.as_str()),
            None => None,
        }
    }

    /// The prompt of the next line: the name of the group where the session
    /// stands, where a store is open, and two angle brackets.
    pub fn prompt(&self) -> (r: String)
        requires
            self.wf(),
        ensures
            r@ == (match self.state.db {
                Some(db) => db.current().name@ + ">> "@,
                None => ">> "@,
            }),
    {
        match self.get_current_group_name() {
            Some(name) => {
                let mut r = name.to_owned();
                r.append(">> ");
                r
            },
            None => ">> ".to_owned(),
        }
    }

    /// The tree of the open store.
    pub fn get_db(&self) -> (r: Option<&Group>)
        ensures
            match self.state.db {
                Some(db) => r == Some(&db.root),
                None => r.is_none(),
            },
    {
        match &self.state.db {
            Some(db) => Some(&db.root),
            None => None,
        }
    }

    /// Takes over a store that has been opened from the file at `path`: the
    /// session stands at its root, and completion knows its names.
    pub fn opened(&mut self, root: Group, path: &str, editor_helper: &mut EditorHelper) -> (out:
        Vec<Effect>)
        ensures
            final(self).wf(),
            final(self).state.db is Some,
            final(self).state.db->Some_0.root == root,
            final(self).state.db->Some_0.dir_stack@.len() == 0,
            final(editor_helper).describes(root),
            final(editor_helper).stack().len() == 0,
            final(self).in_step(final(editor_helper)),
            models(out@) == seq![EffectModel::Print(path@ + " successfully opened"@)],
    {
        editor_helper.create_db_entries(&root);
        editor_helper.set_dir_stack(Vec::new());
        self.state = State::new(Some(root));
        assert(editor_helper.stack() =~= self.state.db->Some_0.dir_stack@);
        let mut line = path.to_owned();
        line.append(" successfully opened");
        let mut out: Vec<Effect> = Vec::new();
        out.push(Effect::Print(line));
        assert(models(out@) =~= seq![EffectModel::Print(path@ + " successfully opened"@)]);
        out
    }

    /// Carries out a command that reads the open store.
    fn on_store(db: &Db, command: &Command) -> (r: Result<Vec<Effect>, String>)
        requires
            db.wf(),
            command.model().verb != Verb::ChangeDir,
            command.model().verb != Verb::ClearClipboard,
            command.model().verb != Verb::OpenDB,
            command.model().verb != Verb::CloseDB,
        ensures
            is_outcome(r, store_outcome(*db, command.model())),
    {
        let group = db.get_current_group();
        match command {
            Command::ListDir { path } => match db.get_node(group, path.as_str()) {
                Some(node) => Ok(print_all(list_node(node))),
                None => Err(joined(path, " does not exist!")),
            },
            Command::Show { show_hidden, totp, entry } => match db.get_node(
                group,
                entry.as_str(),
            ) {
                Some(node) => Ok(print_node(node, *show_hidden, *totp)),
                None => Err(joined(entry, " does not exist!")),
            },
            Command::CopyPassword { entry } => match db.get_node(group, entry.as_str()) {
                Some(NodeRef::Entry(e)) => Ok(copy_entry_field(e, "Password")),
                _ => Err(joined(entry, " is not a group or doesn't exist!")),
            },
            Command::CopyUsername { entry } => match db.get_node(group, entry.as_str()) {
                Some(NodeRef::Entry(e)) => Ok(copy_entry_field(e, "UserName")),
                _ => Err(joined(entry, " is not a group or doesn't exist!")),
            },
            Command::CopyURL { entry } => match db.get_node(group, entry.as_str()) {
                Some(NodeRef::Entry(e)) => Ok(copy_entry_field(e, "URL")),
                _ => Err(joined(entry, " is not a group or doesn't exist!")),
            },
            _ => Err(String::new()),
        }
    }

    /// Carries out `command`. The result holds what the program is to show
    /// or do, or a complaint. Only changing the location and closing the
    /// store change the session; both keep the editor's helper in step.
    pub fn execute(&mut self, command: Command, editor_helper: &mut EditorHelper) -> (r: Result<
        Vec<Effect>,
        String,
    >)
        requires
            old(self).wf(),
        ensures
            final(self).wf(),
            old(self).in_step(old(editor_helper)) ==> final(self).in_step(final(editor_helper)),
            is_outcome(r, outcome(old(self).state.db, command.model())),
            final(editor_helper).root_id() == old(editor_helper).root_id(),
            match (command.model().verb, old(self).state.db) {
                (Verb::ChangeDir, Some(db)) => {
                    &&& final(self).state.db is Some
                    &&& final(self).state.db->Some_0.root == db.root
                    &&& final(self).state.db->Some_0.dir_stack@ == (match moved_stack(
                        db.root,
                        db.dir_stack@,
                        command.model().first,
                    ) {
                        Some(s) => s,
                        None => db.dir_stack@,
                    })
                    &&& final(editor_helper).entries() == old(editor_helper).entries()
                    &&& final(editor_helper).stack() == (if r is Ok {
                        final(self).state.db->Some_0.dir_stack@
                    } else {
                        old(editor_helper).stack()
                    })
                },
                (Verb::CloseDB, Some(_)) => {
                    &&& final(self).state.db is None
                    &&& final(editor_helper).stack().len() == 0
                    &&& final(editor_helper).entries() == Map::<u128, fst::Set<Vec<u8>>>::empty()
                },
                _ => final(self).state == old(self).state && *final(editor_helper) == *old(
                    editor_helper,
                ),
            },
    {
        match &command {
            Command::ClearClipboard => {
                let none: Vec<u8> = Vec::new();
                return Ok(print_value_as_osc52(none.as_slice()));
            },
            Command::OpenDB { path, password } => {
                if self.state.db.is_some() {
                    return Err("Database already opened!".to_owned());
                }
                let mut out: Vec<Effect> = Vec::new();
                out.push(Effect::Open { path: path.clone(), password: password.clone() });
                assert(models(out@) =~= seq![
                    EffectModel::Open { path: path@, password: password@ },
                ]);
                return Ok(out);
            },
            Command::CloseDB => {
                if self.state.db.is_none() {
                    return Err("No database opened!".to_owned());
                }
                self.state = State::new(None);
                editor_helper.clear_db();
                let mut out: Vec<Effect> = Vec::new();
                out.push(Effect::Print("Closing database!".to_owned()));
                assert(models(out@) =~= seq![EffectModel::Print("Closing database!"@)]);
                return Ok(out);
            },
            Command::ChangeDir { path } => {
                match &mut self.state.db {
                    None => {
                        return Err("Database not opened".to_owned());
                    },
                    Some(db) => {
                        if db.change_current_group(path.as_str()) {
                            editor_helper.set_dir_stack(db.dir_stack.clone());
                            let out: Vec<Effect> = Vec::new();
                            assert(models(out@) =~= Seq::<EffectModel>::empty());
                            return Ok(out);
                        }
                        return Err(joined(path, " is not a group or doesn't exist!"));
                    },
                }
            },
            _ => {},
        }
        match &self.state.db {
            None => Err("Database not opened".to_owned()),
            Some(db) => Executor::on_store(db, &command),
        }
    }
}

} // verus!
