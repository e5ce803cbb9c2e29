//! What the line editor asks of the shell: whether a line is a command, and
//! what may follow at the cursor.

use std::collections::HashMap;
use vstd::prelude::*;
use vstd::string::StrSliceExecFns;
use vstd::string::StringExecFns;
use vstd::utf8::encode_utf8;
use crate::command::{
    line_words, parse, shell_words, split_words, words_of, Command, ParseError,
};
use crate::completion::{
    earlier_words, flag_candidates, is_flag_word, is_long_word, strip_dashes, used_in,
    without_dashes,
};
use crate::grammar::{all_verb_names, all_verbs, takes_tree_path, verb_named, Verb};
use crate::index::{
    encoded, is_listing, lemma_encoded_is_text, lemma_listing_within, make_index,
    matches_are_text, names_with_prefix, set_keys,
};
use crate::names::{
    child_at, child_names, get_all_prefixes_under_group, in_tree, lemma_child_in_tree,
    lemma_follow_in_tree, lemma_in_tree_cases, lemma_names_of_children, unique_ids,
};
use crate::state::follow;
use crate::text::{text_eq, views};
use crate::tree::{node_label, node_name, Group, Node};

verus! {

broadcast use vstd::std_specs::hash::group_hash_axioms;

/// The helper of the prompt that asks for a password: it shows a star for
/// every byte typed.
pub struct PasswordInput;

/// The helper of the command prompt: the name sets that completion searches,
/// and the session's location.
pub struct EditorHelper {
    /// The names of all commands.
    cmd_trie: fst::Set<Vec<u8>>,
    /// The directory stack of the session.
    dir_stack: Vec<u128>,
    /// For every group of the open store, by its identifier, the names
    /// listed in it.
    db_entries: HashMap<u128, fst::Set<Vec<u8>>>,
    /// The identifier of the open store's root.
    db_root: u128,
}

/// A word as it is written on a shell's command line so that it is read
/// back as that one word: as it stands, or quoted.
pub uninterp spec fn shell_quoted(word: Seq<char>) -> Seq<char>;

/// Quotes a word by `shlex::quote`, which returns the word as it stands
/// where no character of it needs protection, and else a quoted form that a
/// shell reads as the same word. The contract only names the result.
#[verifier::external_body]
#[allow(deprecated)]
fn quote_word(word: &str) -> (r: String)
    ensures
        r@ == shell_quoted(word@),
{
    shlex::quote(word).into_owned()
}

/// The number of bytes of a text in UTF-8.
pub open spec fn byte_len(s: Seq<char>) -> nat {
    encode_utf8(s).len()
}

/// The characters that separate words.
pub open spec fn is_blank(c: char) -> bool {
    c == ' ' || c == '\t' || c == '\n'
}

/// Whether the line ends in the middle of a word.
pub open spec fn ends_in_word(line: Seq<char>) -> bool {
    line.len() > 0 && !is_blank(line.last())
}

/// Whether the first `s` characters of `line` split into exactly the words
/// `earlier`.
pub open spec fn holds_words(line: Seq<char>, s: int, earlier: Seq<Seq<char>>) -> bool {
    0 <= s <= line.len() && shell_words(line.take(s)) == Some(earlier)
}

/// Whether the word at the end of `line` starts at character `s`: the
/// characters before `s` split into the words `earlier` that precede it, and
/// no longer part of the line does.
pub open spec fn is_token_start(line: Seq<char>, s: int, earlier: Seq<Seq<char>>) -> bool {
    holds_words(line, s, earlier) && forall|t: int|
        s < t <= line.len() ==> !holds_words(line, t, earlier)
}

/// Whether completion replaces the word at the end of the line, and so has
/// to know where it starts: where the line ends in a word that is the
/// command's name or an operand.
pub open spec fn replaces_word(words: Seq<Seq<char>>, typing: bool) -> bool {
    typing && words.len() >= 1 && (words.len() == 1 || !is_flag_word(words.last()))
}

/// Whether `set` holds the names listed in the group with identifier `id`
/// somewhere in the tree of `root`.
pub open spec fn lists_group(root: Group, id: u128, set: fst::Set<Vec<u8>>) -> bool {
    exists|h: Group| in_tree(root, h) && h.uuid == id && set_keys(set) == encoded(child_names(h))
}

/// Adds to `map`, for `g` and every group below it, the names listed in it,
/// under the group's identifier.
fn index_subtree(g: &Group, map: &mut HashMap<u128, fst::Set<Vec<u8>>>)
    ensures
        forall|id: u128| old(map)@.contains_key(id) ==> final(map)@.contains_key(id),
        forall|id: u128| #[trigger]
            final(map)@.contains_key(id) ==> (old(map)@.contains_key(id) && final(map)@[id] == old(
                map,
            )@[id]) || lists_group(*g, id, final(map)@[id]),
        forall|h: Group| in_tree(*g, h) ==> final(map)@.contains_key(h.uuid),
    decreases g,
{
    let ghost start = map@;
    let names = get_all_prefixes_under_group(g);
    let set = make_index(names).unwrap();
    map.insert(g.uuid, set);
    proof {
        assert(crate::names::group_at(*g, Seq::<int>::empty()) == Some(*g));
        assert(in_tree(*g, *g));
        assert(lists_group(*g, g.uuid, map@[g.uuid]));
    }
    let mut i: usize = 0;
    while i < g.children.len()
        invariant
            i <= g.children@.len(),
            forall|id: u128| start.contains_key(id) ==> map@.contains_key(id),
            forall|id: u128| #[trigger]
                map@.contains_key(id) ==> (start.contains_key(id) && map@[id] == start[id])
                    || lists_group(*g, id, map@[id]),
            map@.contains_key(g.uuid),
            forall|j: int, h: Group|
                0 <= j < i && #[trigger] child_at(*g, j) is Some && #[trigger] in_tree(
                    child_at(*g, j).unwrap(),
                    h,
                ) ==> map@.contains_key(h.uuid),
        decreases g.children@.len() - i,
    {
        match &g.children[i] {
            Node::Group(c) => {
                let ghost before = map@;
                index_subtree(c, map);
                proof {
                    assert(child_at(*g, i as int) == Some(*c));
                    assert forall|id: u128| #[trigger] map@.contains_key(id) implies (
                    start.contains_key(id) && map@[id] == start[id]) || lists_group(
                        *g,
                        id,
                        map@[id],
                    ) by {
                        if lists_group(*c, id, map@[id]) {
                            let h = choose|h: Group|
                                in_tree(*c, h) && h.uuid == id && set_keys(map@[id]) == encoded(
                                    child_names(h),
                                );
                            lemma_child_in_tree(*g, i as int, h);
                        } else {
                            assert(before.contains_key(id));
                        }
                    }
                }
            },
            Node::Entry(_) => {
                assert(child_at(*g, i as int).is_none());
            },
        }
        i += 1;
    }
    proof {
        assert forall|h: Group| in_tree(*g, h) implies map@.contains_key(h.uuid) by {
            lemma_in_tree_cases(*g, h);
        }
    }
}

impl PasswordInput {
    /// What is shown in place of the line: a star for each of its bytes.
    pub fn highlight(&self, line: &str, pos: usize) -> (shown: String)
        ensures
            shown@.len() == byte_len(line@),
            forall|i: int| 0 <= i < shown@.len() ==> shown@[i] == '*',
    {
        let n = byte_count(line);
        let mut shown = String::new();
        let mut i: usize = 0;
        proof {
            reveal_strlit("*");
        }
        while i < n
            invariant
                i <= n,
                "*"@.len() == 1,
                "*"@[0] == '*',
                shown@.len() == i,
                forall|j: int| 0 <= j < shown@.len() ==> shown@[j] == '*',
            decreases n - i,
        {
            shown.append("*");
            i += 1;
        }
        shown
    }

    /// Whether the shown line changes with every key: always.
    pub fn highlight_char(&self, line: &str, pos: usize) -> (r: bool)
        ensures
            r,
    {
        true
    }
}

impl EditorHelper {
    /// The command names are those of the grammar.
    #[verifier::type_invariant]
    spec fn knows_commands(self) -> bool {
        set_keys(self.cmd_trie) == encoded(all_verb_names())
    }

    /// The directory stack that the helper holds.
    pub closed spec fn stack(&self) -> Seq<u128> {
        self.dir_stack@
    }

    /// The name sets that the helper holds, by group identifier.
    pub closed spec fn entries(&self) -> Map<u128, fst::Set<Vec<u8>>> {
        self.db_entries@
    }

    /// The identifier of the root that the helper holds.
    pub closed spec fn root_id(&self) -> u128 {
        self.db_root
    }

    /// The identifier of the group where the session stands: the last of
    /// the directory stack, or the root's.
    pub open spec fn current_id(&self) -> u128 {
        if self.stack().len() > 0 {
            self.stack().last()
        } else {
            self.root_id()
        }
    }

    /// The directory stack that the helper holds.
    pub fn dir_stack(&self) -> (r: &Vec<u128>)
        ensures
            r@ == self.stack(),
    {
        &self.dir_stack
    }

    /// The identifier of the root that the helper holds.
    pub fn db_root(&self) -> (r: u128)
        ensures
            r == self.root_id(),
    {
        self.db_root
    }

    /// Whether the helper holds a name set for the group with identifier
    /// `id`.
    pub fn has_names_for(&self, id: u128) -> (r: bool)
        ensures
            r == self.entries().contains_key(id),
    {
        self.db_entries.contains_key(&id)
    }

    /// The name sets are those of the tree of `root`: one for every group of
    /// the tree, and each holds the names listed in a group with that
    /// identifier.
    pub open spec fn describes(&self, root: Group) -> bool {
        &&& self.root_id() == root.uuid
        &&& forall|id: u128| #[trigger]
            self.entries().contains_key(id) ==> lists_group(root, id, self.entries()[id])
        &&& forall|h: Group| in_tree(root, h) ==> self.entries().contains_key(h.uuid)
    }

    /// Whether `out` is what completion offers for an operand of the
    /// command called `cmd`, of which `prefix` is typed: for a command that
    /// takes a path into the tree, the names listed in the current group that
    /// start with `prefix`, in ascending byte order; nothing for any other
    /// command, and nothing where the current group has no name set.
    pub open spec fn operand_listing(
        &self,
        cmd: Seq<char>,
        prefix: Seq<char>,
        out: Seq<Seq<char>>,
    ) -> bool {
        match verb_named(cmd) {
            Some(v) => if takes_tree_path(v) && self.entries().contains_key(self.current_id()) {
                let keys = set_keys(self.entries()[self.current_id()]);
                if matches_are_text(keys, encode_utf8(prefix)) {
                    is_listing(out, keys, encode_utf8(prefix))
                } else {
                    out.len() == 0
                }
            } else {
                out.len() == 0
            },
            None => out.len() == 0,
        }
    }

    /// Whether `r` is the completion for a line of the given words that ends
    /// at byte `pos`, where `typing` says whether it ends in the middle of a
    /// word and `token_start` is the byte at which that word starts. A line
    /// without words has none. After a blank, the operands of the command
    /// are offered at the cursor. In the middle of the first word, the
    /// command names that start with it replace it. In the middle of a later
    /// word that begins with a dash, the rest of a flag's spelling is offered
    /// at the cursor, for the flags that no earlier word has spelled. In the
    /// middle of any other word, the operands that start with it replace it.
    pub open spec fn completes(
        &self,
        words: Seq<Seq<char>>,
        pos: usize,
        typing: bool,
        token_start: usize,
        r: (usize, Vec<String>),
    ) -> bool {
        if words.len() == 0 {
            r.0 == 0 && r.1@.len() == 0
        } else if !typing {
            r.0 == pos && self.operand_listing(words[0], Seq::empty(), views(r.1@))
        } else if words.len() == 1 {
            r.0 == token_start && is_listing(
                views(r.1@),
                encoded(all_verb_names()),
                encode_utf8(words[0]),
            )
        } else if is_flag_word(words.last()) {
            r.0 == pos && views(r.1@) == (match verb_named(words[0]) {
                Some(v) => flag_candidates(
                    v,
                    used_in(v, earlier_words(words)),
                    strip_dashes(words.last()),
                    !is_long_word(words.last()),
                ),
                None => Seq::empty(),
            })
        } else {
            r.0 == token_start && self.operand_listing(words[0], words.last(), views(r.1@))
        }
    }

    /// A helper for a session without a store.
    pub fn new() -> (h: EditorHelper)
        ensures
            h.stack().len() == 0,
            h.entries() == Map::<u128, fst::Set<Vec<u8>>>::empty(),
            h.root_id() == 0,
    {
        let verbs = Verb::all();
        let mut names: Vec<String> = Vec::new();
        let mut i: usize = 0;
        while i < verbs.len()
            invariant
                verbs@ == all_verbs(),
                i <= verbs@.len(),
                names@.len() == i,
                forall|j: int| 0 <= j < i ==> names@[j]@ == all_verb_names()[j],
            decreases verbs@.len() - i,
        {
            names.push(verbs[i].name().to_owned());
            i += 1;
        }
        assert(views(names@) =~= all_verb_names());
        let cmd_trie = make_index(names).unwrap();
        EditorHelper { cmd_trie, dir_stack: Vec::new(), db_entries: HashMap::new(), db_root: 0 }
    }

    /// Rebuilds the name sets from the tree of `root`.
    pub fn create_db_entries(&mut self, root: &Group)
        ensures
            final(self).describes(*root),
            final(self).stack() == old(self).stack(),
    {
        let mut entries: HashMap<u128, fst::Set<Vec<u8>>> = HashMap::new();
        index_subtree(root, &mut entries);
        proof {
            use_type_invariant(&*self);
        }
        self.db_entries = entries;
        self.db_root = root.uuid;
    }

    /// Forgets the store: the location and all name sets.
    pub fn clear_db(&mut self)
        ensures
            final(self).stack().len() == 0,
            final(self).entries() == Map::<u128, fst::Set<Vec<u8>>>::empty(),
            final(self).root_id() == old(self).root_id(),
    {
        proof {
            use_type_invariant(&*self);
        }
        self.dir_stack = Vec::new();
        self.db_entries = HashMap::new();
    }

    /// Takes over the session's location.
    pub fn set_dir_stack(&mut self, dir_stack: Vec<u128>)
        ensures
            final(self).stack() == dir_stack@,
            final(self).entries() == old(self).entries(),
            final(self).root_id() == old(self).root_id(),
    {
        proof {
            use_type_invariant(&*self);
        }
        self.dir_stack = dir_stack;
    }

    /// The command names that start with `word`, in ascending byte order.
    pub fn find_cmds_starting_with(&self, word: &str) -> (out: Vec<String>)
        ensures
            is_listing(views(out@), encoded(all_verb_names()), encode_utf8(word@)),
    {
        proof {
            use_type_invariant(self);
            lemma_encoded_is_text(all_verb_names(), encode_utf8(word@));
        }
        names_with_prefix(&self.cmd_trie, word)
    }

    /// The candidates for a flag of the command called `cmd`, where
    /// `prefix` is what is typed behind the dashes and `ignore_flags` holds
    /// the flags that the line has already. An unknown command has none.
    pub fn find_non_positional_args(
        &self,
        cmd: &str,
        prefix: &str,
        is_short: bool,
        ignore_flags: crate::grammar::FlagSet,
    ) -> (out: Vec<String>)
        ensures
            views(out@) == (match verb_named(cmd@) {
                Some(v) => flag_candidates(v, ignore_flags, prefix@, is_short),
                None => Seq::empty(),
            }),
    {
        match Verb::from_name(cmd) {
            Some(v) => v.flag_candidates(ignore_flags, prefix, is_short),
            None => {
                let out: Vec<String> = Vec::new();
                assert(views(out@) =~= Seq::<Seq<char>>::empty());
                out
            },
        }
    }

    /// The candidates for an operand of the command called `cmd`, of which
    /// `prefix` is typed.
    pub fn find_positional_args(&self, cmd: &str, prefix: &str) -> (out: Vec<String>)
        ensures
            self.operand_listing(cmd@, prefix@, views(out@)),
    {
        let verb = match Verb::from_name(cmd) {
            Some(v) => v,
            None => {
                return Vec::new();
            },
        };
        if !verb.takes_tree_path() {
            return Vec::new();
        }
        let id = if self.dir_stack.len() > 0 {
            self.dir_stack[self.dir_stack.len() - 1]
        } else {
            self.db_root
        };
        match self.db_entries.get(&id) {
            Some(set) => names_with_prefix(set, prefix),
            None => Vec::new(),
        }
    }

    /// The completion for a line that has been split into `words` and ends
    /// at byte `pos`, where `typing` says whether it ends in the middle of a
    /// word and `token_start` is the byte at which that word starts. The
    /// first number is the byte from which a candidate replaces the line's
    /// text up to the cursor.
    pub fn complete_words(
        &self,
        words: &Vec<String>,
        pos: usize,
        typing: bool,
        token_start: usize,
    ) -> (r: (usize, Vec<String>))
        ensures
            self.completes(views(words@), pos, typing, token_start, r),
    {
        if words.len() == 0 {
            return (0, Vec::new());
        }
        let cmd = words[0].as_str();
        if !typing {
            proof {
                reveal_strlit("");
            }
            assert(""@ =~= Seq::<char>::empty());
            return (pos, self.find_positional_args(cmd, ""));
        }
        if words.len() == 1 {
            return (token_start, self.find_cmds_starting_with(cmd));
        }
        let last = words[words.len() - 1].as_str();
        assert(views(words@).last() == last@);
        let n = last.unicode_len();
        if n > 0 && last.get_char(0) == '-' {
            let is_short = !(n > 1 && last.get_char(1) == '-');
            let prefix = without_dashes(last);
            let used = match Verb::from_name(cmd) {
                Some(v) => v.used_flags(words),
                None => crate::grammar::FlagSet::empty(),
            };
            return (pos, self.find_non_positional_args(cmd, prefix, is_short, used));
        }
        (token_start, self.find_positional_args(cmd, last))
    }

    /// The completion at byte `pos` of `line`: all command names at the
    /// start of the line; nothing in the middle of the line; at its end, what
    /// the words of the line call for. Where a candidate replaces the word at
    /// the end of the line, the first number is the byte at which that word
    /// starts.
    pub fn complete(&self, line: &str, pos: usize) -> (r: (usize, Vec<String>))
        ensures
            pos == 0 ==> r.0 == 0 && views(r.1@) == all_verb_names(),
            pos != 0 && pos != byte_len(line@) ==> r.0 == 0 && r.1@.len() == 0,
            pos != 0 && pos == byte_len(line@) ==> {
                let words = line_words(line@);
                let typing = ends_in_word(line@);
                if replaces_word(words, typing) {
                    &&& forall|s: int|
                        is_token_start(line@, s, words.drop_last()) ==> self.completes(
                            words,
                            pos,
                            typing,
                            byte_len(line@.take(s)) as usize,
                            r,
                        )
                    &&& (forall|s: int| !holds_words(line@, s, words.drop_last())) ==> r.0 == 0
                        && r.1@.len() == 0
                } else {
                    self.completes(words, pos, typing, 0, r)
                }
            },
    {
        if pos == 0 {
            let verbs = Verb::all();
            let mut names: Vec<String> = Vec::new();
            let mut i: usize = 0;
            while i < verbs.len()
                invariant
                    verbs@ == all_verbs(),
                    i <= verbs@.len(),
                    names@.len() == i,
                    forall|j: int| 0 <= j < i ==> names@[j]@ == all_verb_names()[j],
                decreases verbs@.len() - i,
            {
                names.push(verbs[i].name().to_owned());
                i += 1;
            }
            assert(views(names@) =~= all_verb_names());
            return (0, names);
        }
        if pos != byte_count(line) {
            return (0, Vec::new());
        }
        let words = words_of(line);
        let n = line.unicode_len();
        let typing = n > 0 && !is_blank_char(line.get_char(n - 1));
        let replaces = typing && words.len() >= 1 && (words.len() == 1 || !starts_with_dash(
            words[words.len() - 1].as_str(),
        ));
        if !replaces {
            return self.complete_words(&words, pos, typing, 0);
        }
        match find_token_start(line, &words) {
            Some(s) => {
                let start = byte_count(line.substring_char(0, s));
                let r = self.complete_words(&words, pos, typing, start);
                proof {
                    let earlier = views(words@).drop_last();
                    assert forall|t: int| is_token_start(line@, t, earlier) implies t == s by {
                        if t < s {
                            assert(!holds_words(line@, s as int, earlier));
                        }
                        if s < t {
                            assert(!holds_words(line@, t, earlier));
                        }
                    }
                }
                r
            },
            None => (0, Vec::new()),
        }
    }

    /// Whether `input` is a command: nothing where it is, and else the
    /// diagnostic to show, on a line of its own.
    pub fn validate(&self, input: &str) -> (r: Option<String>)
        ensures
            match parse(line_words(input@)) {
                Ok(_) => r.is_none(),
                Err(e) => r is Some && r->Some_0@ == "\n"@ + ParseError::kind_text(e.0) + e.1,
            },
    {
        match Command::try_parse(input) {
            Ok(_) => None,
            Err(e) => {
                let mut m = "\n".to_owned();
                m.append(e.message().as_str());
                assert(m@ =~= "\n"@ + ParseError::kind_text(e.kind) + e.token@);
                Some(m)
            },
        }
    }

    /// The text that replaces the word being completed once the candidate
    /// `elected` is chosen: the candidate, quoted where it needs to be.
    pub fn update(&self, elected: &str) -> (r: String)
        ensures
            r@ == shell_quoted(elected@),
    {
        quote_word(elected)
    }

    /// Whether lines are checked while they are typed: never.
    pub fn validate_while_typing(&self) -> (r: bool)
        ensures
            !r,
    {
        false
    }

    /// The hint to show behind the cursor: none.
    pub fn hint(&self, line: &str, pos: usize) -> (r: Option<String>)
        ensures
            r.is_none(),
    {
        None
    }
}

/// The number of bytes of a text in UTF-8.
pub fn byte_count(s: &str) -> (n: usize)
    ensures
        n == byte_len(s@),
{
    s.as_bytes().len()
}

/// Whether `w` begins with a dash.
pub fn starts_with_dash(w: &str) -> (r: bool)
    ensures
        r == is_flag_word(w@),
{
    w.unicode_len() > 0 && w.get_char(0) == '-'
}

/// Whether `found` holds the words of `words` but the last.
fn is_earlier_part(found: &Vec<String>, words: &Vec<String>) -> (r: bool)
    requires
        words@.len() >= 1,
    ensures
        r == (views(found@) == views(words@).drop_last()),
{
    if found.len() != words.len() - 1 {
        assert(views(found@).len() != views(words@).drop_last().len());
        return false;
    }
    let mut i: usize = 0;
    while i < found.len()
        invariant
            found@.len() == words@.len() - 1,
            i <= found@.len(),
            forall|j: int| 0 <= j < i ==> found@[j]@ == words@[j]@,
        decreases found@.len() - i,
    {
        if !text_eq(found[i].as_str(), words[i].as_str()) {
            assert(views(found@)[i as int] != views(words@).drop_last()[i as int]);
            return false;
        }
        i += 1;
    }
    assert(views(found@) =~= views(words@).drop_last());
    true
}

/// The character at which the last of the `words` of `line` starts: the
/// longest part of the line, from its start, that splits into the words
/// before the last ends there. There is none where no part of the line
/// splits so.
pub fn find_token_start(line: &str, words: &Vec<String>) -> (r: Option<usize>)
    requires
        words@.len() >= 1,
    ensures
        match r {
            Some(s) => is_token_start(line@, s as int, views(words@).drop_last()),
            None => forall|t: int| !holds_words(line@, t, views(words@).drop_last()),
        },
{
    let n = line.unicode_len();
    let mut s: usize = n;
    loop
        invariant
            n == line@.len(),
            s <= n,
            words@.len() >= 1,
            forall|t: int| s < t <= n ==> !holds_words(line@, t, views(words@).drop_last()),
        decreases s,
    {
        let holds = match split_words(line.substring_char(0, s)) {
            Some(found) => is_earlier_part(&found, words),
            None => false,
        };
        if holds {
            return Some(s);
        }
        if s == 0 {
            return None;
        }
        s -= 1;
    }
}

/// Whether `c` separates words.
pub fn is_blank_char(c: char) -> (r: bool)
    ensures
        r == is_blank(c),
{
    c == ' ' || c == '\t' || c == '\n'
}

/// After the session has moved to a group of a tree whose identifiers are
/// unique, what completion offers for an operand are names of direct
/// children of that group: each candidate is the name under which a child
/// of the group is shown and found.
pub proof fn law_completion_scoped(
    helper: EditorHelper,
    root: Group,
    cmd: Seq<char>,
    prefix: Seq<char>,
    out: Seq<Seq<char>>,
    i: int,
)
    requires
        helper.describes(root),
        unique_ids(root),
        follow(root, helper.stack()) is Some,
        helper.operand_listing(cmd, prefix, out),
        0 <= i < out.len(),
    ensures
        exists|k: int|
            0 <= k < follow(root, helper.stack()).unwrap().children@.len() && node_label(
                follow(root, helper.stack()).unwrap().children@[k],
            ) == Some(out[i]) && node_name(follow(root, helper.stack()).unwrap().children@[k])
                == Some(out[i]),
{
    let g = follow(root, helper.stack()).unwrap();
    lemma_follow_in_tree(root, helper.stack());
    let id = helper.current_id();
    assert(g.uuid == id);
    assert(helper.entries().contains_key(id));
    let set = helper.entries()[id];
    let h = choose|h: Group|
        in_tree(root, h) && h.uuid == id && set_keys(set) == encoded(child_names(h));
    assert(h == g);
    lemma_encoded_is_text(child_names(g), encode_utf8(prefix));
    lemma_listing_within(out, child_names(g), encode_utf8(prefix));
    lemma_names_of_children(g.children@, out[i]);
}

} // verus!
