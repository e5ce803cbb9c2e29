//! Commands, and parsing a line into one.

use vstd::prelude::*;
use vstd::string::StrSliceExecFns;
use vstd::string::StringExecFns;
use crate::grammar::{
    long_flag, max_operands, min_operands, short_flag, verb_name, verb_named, FlagSet, Verb,
};
use crate::text::views;

verus! {

/// A parsed command with its operands.
#[derive(Debug)]
pub enum Command {
    /// List the nodes of a group, or name an entry.
    ListDir { path: String },
    /// Move the session to a group.
    ChangeDir { path: String },
    /// Show an entry's fields, or its one-time code.
    Show { show_hidden: bool, totp: bool, entry: String },
    /// Copy an entry's password to the clipboard.
    CopyPassword { entry: String },
    /// Copy an entry's user name to the clipboard.
    CopyUsername { entry: String },
    /// Copy an entry's URL to the clipboard.
    CopyURL { entry: String },
    /// Clear the clipboard.
    ClearClipboard,
    /// Open the store in the file at `path` with `password`.
    OpenDB { path: String, password: String },
    /// Close the open store.
    CloseDB,
}

/// Why a line is no command.
#[derive(Clone, Copy, PartialEq, Eq, Structural, Debug)]
pub enum ErrorKind {
    /// The line holds no word.
    MissingCommand,
    /// The first word names no command.
    UnknownCommand,
    /// A word spells a flag that the command does not take.
    UnknownFlag,
    /// The line holds more operands than the command takes.
    UnexpectedOperand,
    /// The line holds fewer operands than the command needs.
    MissingOperand,
}

/// A line that is no command: the reason and the offending word.
#[derive(Debug)]
pub struct ParseError {
    pub kind: ErrorKind,
    /// The word at fault; for a missing operand, the command's name; for a
    /// missing command, empty.
    pub token: String,
}

/// What a command says, as plain values.
pub ghost struct CommandModel {
    pub verb: Verb,
    pub flags: FlagSet,
    pub first: Seq<char>,
    pub second: Seq<char>,
}

/// The flags and operands met so far while reading a command's words.
pub ghost struct Scan {
    pub flags: FlagSet,
    pub operands: Seq<Seq<char>>,
}

/// What the shell-style splitting of a line yields: its words, with quotes
/// and escapes resolved, or nothing where the quoting is broken.
pub uninterp spec fn shell_words(line: Seq<char>) -> Option<Seq<Seq<char>>>;

/// A word of the form `--name`.
pub open spec fn is_long_token(t: Seq<char>) -> bool {
    t.len() > 2 && t[0] == '-' && t[1] == '-'
}

/// A word of the form `-abc`: a dash and one-letter spellings.
pub open spec fn is_cluster_token(t: Seq<char>) -> bool {
    t.len() > 1 && t[0] == '-' && !is_long_token(t)
}

/// The flags after reading a cluster of one-letter spellings; nothing where
/// a letter spells no flag of the command.
pub open spec fn cluster(v: Verb, letters: Seq<char>, flags: FlagSet) -> Option<FlagSet>
    decreases letters.len(),
{
    if letters.len() == 0 {
        Some(flags)
    } else {
        match cluster(v, letters.drop_last(), flags) {
            Some(fs) => match short_flag(v, letters.last()) {
                Some(f) => Some(fs.with(f)),
                None => None,
            },
            None => None,
        }
    }
}

/// Reading one word after the command's name: a flag is recorded, anything
/// else is an operand.
pub open spec fn scan_token(v: Verb, s: Scan, t: Seq<char>) -> Result<Scan, (ErrorKind, Seq<char>)> {
    if is_long_token(t) {
        match long_flag(v, t.skip(2)) {
            Some(f) => Ok(Scan { flags: s.flags.with(f), operands: s.operands }),
            None => Err((ErrorKind::UnknownFlag, t)),
        }
    } else if is_cluster_token(t) {
        match cluster(v, t.skip(1), s.flags) {
            Some(fs) => Ok(Scan { flags: fs, operands: s.operands }),
            None => Err((ErrorKind::UnknownFlag, t)),
        }
    } else {
        Ok(Scan { flags: s.flags, operands: s.operands.push(t) })
    }
}

/// Reading all words after the command's name, left to right; the first
/// word at fault decides the error.
pub open spec fn scan(v: Verb, tokens: Seq<Seq<char>>) -> Result<Scan, (ErrorKind, Seq<char>)>
    decreases tokens.len(),
{
    if tokens.len() == 0 {
        Ok(Scan { flags: FlagSet::none(), operands: Seq::empty() })
    } else {
        match scan(v, tokens.drop_last()) {
            Ok(s) => scan_token(v, s, tokens.last()),
            Err(e) => Err(e),
        }
    }
}

/// Binding the operands to the command: too many or too few are errors, an
/// operand that may be left out defaults to the empty text.
pub open spec fn bind(v: Verb, s: Scan) -> Result<CommandModel, (ErrorKind, Seq<char>)> {
    if s.operands.len() > max_operands(v) {
        Err((ErrorKind::UnexpectedOperand, s.operands[max_operands(v) as int]))
    } else if s.operands.len() < min_operands(v) {
        Err((ErrorKind::MissingOperand, verb_name(v)))
    } else {
        Ok(
            CommandModel {
                verb: v,
                flags: s.flags,
                first: if s.operands.len() > 0 {
                    s.operands[0]
                } else {
                    Seq::empty()
                },
                second: if s.operands.len() > 1 {
                    s.operands[1]
                } else {
                    Seq::empty()
                },
            },
        )
    }
}

/// The command that a sequence of words spells.
pub open spec fn parse(words: Seq<Seq<char>>) -> Result<CommandModel, (ErrorKind, Seq<char>)> {
    if words.len() == 0 {
        Err((ErrorKind::MissingCommand, Seq::empty()))
    } else {
        match verb_named(words[0]) {
            None => Err((ErrorKind::UnknownCommand, words[0])),
            Some(v) => match scan(v, words.skip(1)) {
                Ok(s) => bind(v, s),
                Err(e) => Err(e),
            },
        }
    }
}

/// The words that a line is read as: those of its shell-style splitting, and
/// none where the quoting is broken.
pub open spec fn line_words(line: Seq<char>) -> Seq<Seq<char>> {
    match shell_words(line) {
        Some(w) => w,
        None => Seq::empty(),
    }
}

/// Whether an outcome of parsing is the one that the grammar gives.
pub open spec fn parsed_as(
    r: Result<Command, ParseError>,
    expected: Result<CommandModel, (ErrorKind, Seq<char>)>,
) -> bool {
    match r {
        Ok(c) => expected == Ok::<CommandModel, (ErrorKind, Seq<char>)>(c.model()),
        Err(e) => expected == Err::<CommandModel, (ErrorKind, Seq<char>)>((e.kind, e.token@)),
    }
}

/// An error of reading the words, once met, stays the outcome.
pub proof fn lemma_scan_stuck(v: Verb, tokens: Seq<Seq<char>>, i: int)
    requires
        0 <= i < tokens.len(),
        scan(v, tokens.take(i + 1)) is Err,
    ensures
        scan(v, tokens) == scan(v, tokens.take(i + 1)),
    decreases tokens.len() - i,
{
    if i + 1 < tokens.len() {
        assert(tokens.take(i + 2).drop_last() =~= tokens.take(i + 1));
        lemma_scan_stuck(v, tokens, i + 1);
    } else {
        assert(tokens.take(i + 1) =~= tokens);
    }
}

/// Splits a line into words by `shlex::split`, which resolves quotes and
/// backslash escapes as a POSIX shell does and yields nothing where a quote
/// or an escape is left open. The contract only names the result.
#[verifier::external_body]
pub(crate) fn split_words(line: &str) -> (r: Option<Vec<String>>)
    ensures
        match r {
            Some(w) => shell_words(line@) == Some(views(w@)),
            None => shell_words(line@).is_none(),
        },
{
    shlex::split(line)
}

/// The words of a line, and none where its quoting is broken.
pub fn words_of(line: &str) -> (w: Vec<String>)
    ensures
        views(w@) == line_words(line@),
{
    match split_words(line) {
        Some(w) => w,
        None => {
            let w: Vec<String> = Vec::new();
            assert(views(w@) =~= Seq::<Seq<char>>::empty());
            w
        },
    }
}

impl ParseError {
    /// What the error says about its kind.
    pub open spec fn kind_text(kind: ErrorKind) -> Seq<char> {
        match kind {
            ErrorKind::MissingCommand => "error: a command is required"@,
            ErrorKind::UnknownCommand => "error: unrecognized command: "@,
            ErrorKind::UnknownFlag => "error: unexpected flag: "@,
            ErrorKind::UnexpectedOperand => "error: unexpected argument: "@,
            ErrorKind::MissingOperand => "error: a required argument is missing for: "@,
        }
    }

    /// The diagnostic for the user: what went wrong, then the word at fault.
    pub fn message(&self) -> (m: String)
        ensures
            m@ == Self::kind_text(self.kind) + self.token@,
    {
        let head = match self.kind {
            ErrorKind::MissingCommand => "error: a command is required",
            ErrorKind::UnknownCommand => "error: unrecognized command: ",
            ErrorKind::UnknownFlag => "error: unexpected flag: ",
            ErrorKind::UnexpectedOperand => "error: unexpected argument: ",
            ErrorKind::MissingOperand => "error: a required argument is missing for: ",
        };
        let mut m = head.to_owned();
        m.append(self.token.as_str());
        m
    }
}

impl Command {
    /// What the command says, as plain values.
    pub open spec fn model(&self) -> CommandModel {
        match *self {
            Command::ListDir { path } => CommandModel {
                verb: Verb::ListDir,
                flags: FlagSet::none(),
                first: path@,
                second: Seq::empty(),
            },
            Command::ChangeDir { path } => CommandModel {
                verb: Verb::ChangeDir,
                flags: FlagSet::none(),
                first: path@,
                second: Seq::empty(),
            },
            Command::Show { show_hidden, totp, entry } => CommandModel {
                verb: Verb::Show,
                flags: FlagSet { show_hidden, totp },
                first: entry@,
                second: Seq::empty(),
            },
            Command::CopyPassword { entry } => CommandModel {
                verb: Verb::CopyPassword,
                flags: FlagSet::none(),
                first: entry@,
                second: Seq::empty(),
            },
            Command::CopyUsername { entry } => CommandModel {
                verb: Verb::CopyUsername,
                flags: FlagSet::none(),
                first: entry@,
                second: Seq::empty(),
            },
            Command::CopyURL { entry } => CommandModel {
                verb: Verb::CopyURL,
                flags: FlagSet::none(),
                first: entry@,
                second: Seq::empty(),
            },
            Command::ClearClipboard => CommandModel {
                verb: Verb::ClearClipboard,
                flags: FlagSet::none(),
                first: Seq::empty(),
                second: Seq::empty(),
            },
            Command::OpenDB { path, password } => CommandModel {
                verb: Verb::OpenDB,
                flags: FlagSet::none(),
                first: path@,
                second: password@,
            },
            Command::CloseDB => CommandModel {
                verb: Verb::CloseDB,
                flags: FlagSet::none(),
                first: Seq::empty(),
                second: Seq::empty(),
            },
        }
    }

    /// The command that `verb` makes with flags and operands that fit it.
    fn build(verb: Verb, flags: FlagSet, first: String, second: String) -> (c: Command)
        requires
            verb_flags_fit(verb, flags),
            max_operands(verb) < 2 ==> second@.len() == 0,
            max_operands(verb) < 1 ==> first@.len() == 0,
        ensures
            c.model() == (CommandModel { verb, flags, first: first@, second: second@ }),
    {
        let c = match verb {
            Verb::ListDir => Command::ListDir { path: first },
            Verb::ChangeDir => Command::ChangeDir { path: first },
            Verb::Show => Command::Show {
                show_hidden: flags.show_hidden,
                totp: flags.totp,
                entry: first,
            },
            Verb::CopyPassword => Command::CopyPassword { entry: first },
            Verb::CopyUsername => Command::CopyUsername { entry: first },
            Verb::CopyURL => Command::CopyURL { entry: first },
            Verb::ClearClipboard => Command::ClearClipboard,
            Verb::OpenDB => Command::OpenDB { path: first, password: second },
            Verb::CloseDB => Command::CloseDB,
        };
        assert(c.model().first =~= first@);
        assert(c.model().second =~= second@);
        c
    }

    /// Reads a cluster of one-letter flags, the word `token` without its
    /// dash.
    fn read_cluster(verb: Verb, token: &str, flags: FlagSet) -> (r: Option<FlagSet>)
        requires
            token@.len() >= 1,
            verb_flags_fit(verb, flags),
        ensures
            r == cluster(verb, token@.skip(1), flags),
            r matches Some(fs) ==> verb_flags_fit(verb, fs),
    {
        let n = token.unicode_len();
        let ghost letters = token@.skip(1);
        let mut fs = flags;
        let mut i: usize = 1;
        assert(letters.take(0) =~= Seq::<char>::empty());
        while i < n
            invariant
                n == token@.len(),
                letters == token@.skip(1),
                1 <= i <= n,
                verb_flags_fit(verb, fs),
                cluster(verb, letters.take(i - 1), flags) == Some(fs),
            decreases n - i,
        {
            proof {
                assert(letters.take(i as int).drop_last() =~= letters.take(i - 1));
                assert(letters.take(i as int).last() == token@[i as int]);
            }
            match verb.short_flag(token.get_char(i)) {
                Some(f) => {
                    fs = fs.insert(f);
                },
                None => {
                    proof {
                        lemma_cluster_stuck(verb, letters, flags, i - 1);
                    }
                    return None;
                },
            }
            i += 1;
        }
        assert(letters.take(i - 1) =~= letters);
        Some(fs)
    }

    /// The command that `words` spell: the first word names the command, a
    /// word `--name` or `-abc` sets flags of that command, and every other
    /// word is an operand. An unknown command or flag, an operand too many
    /// and a missing operand are errors that carry the word at fault.
    pub fn parse_words(words: &Vec<String>) -> (r: Result<Command, ParseError>)
        ensures
            parsed_as(r, parse(views(words@))),
    {
        if words.len() == 0 {
            return Err(ParseError { kind: ErrorKind::MissingCommand, token: String::new() });
        }
        let verb = match Verb::from_name(words[0].as_str()) {
            Some(v) => v,
            None => {
                return Err(
                    ParseError { kind: ErrorKind::UnknownCommand, token: words[0].clone() },
                );
            },
        };
        let ghost tokens = views(words@).skip(1);
        let mut flags = FlagSet::empty();
        let mut operands: Vec<String> = Vec::new();
        let mut i: usize = 1;
        assert(tokens.take(0) =~= Seq::<Seq<char>>::empty());
        assert(views(operands@) =~= Seq::<Seq<char>>::empty());
        while i < words.len()
            invariant
                1 <= i <= words@.len(),
                tokens == views(words@).skip(1),
                verb_named(views(words@)[0]) == Some(verb),
                verb_flags_fit(verb, flags),
                scan(verb, tokens.take(i - 1)) == Ok::<Scan, (ErrorKind, Seq<char>)>(
                    Scan { flags, operands: views(operands@) },
                ),
            decreases words@.len() - i,
        {
            let word = words[i].as_str();
            proof {
                assert(tokens.take(i as int).drop_last() =~= tokens.take(i - 1));
                assert(tokens.take(i as int).last() == word@);
            }
            let n = word.unicode_len();
            let dash = n > 1 && word.get_char(0) == '-';
            let long = dash && n > 2 && word.get_char(1) == '-';
            if long {
                match verb.long_flag(word.substring_char(2, n)) {
                    Some(f) => {
                        flags = flags.insert(f);
                    },
                    None => {
                        proof {
                            lemma_scan_stuck(verb, tokens, i - 1);
                        }
                        return Err(
                            ParseError { kind: ErrorKind::UnknownFlag, token: words[i].clone() },
                        );
                    },
                }
            } else if dash {
                match Command::read_cluster(verb, word, flags) {
                    Some(fs) => {
                        flags = fs;
                    },
                    None => {
                        proof {
                            lemma_scan_stuck(verb, tokens, i - 1);
                        }
                        return Err(
                            ParseError { kind: ErrorKind::UnknownFlag, token: words[i].clone() },
                        );
                    },
                }
            } else {
                let ghost before = views(operands@);
                operands.push(words[i].clone());
                assert(views(operands@) =~= before.push(word@));
            }
            i += 1;
        }
        assert(tokens.take(i - 1) =~= tokens);
        if operands.len() > verb.max_operands() {
            return Err(
                ParseError {
                    kind: ErrorKind::UnexpectedOperand,
                    token: operands[verb.max_operands()].clone(),
                },
            );
        }
        if operands.len() < verb.min_operands() {
            return Err(
                ParseError { kind: ErrorKind::MissingOperand, token: verb.name().to_owned() },
            );
        }
        let first = if operands.len() > 0 {
            operands[0].clone()
        } else {
            String::new()
        };
        let second = if operands.len() > 1 {
            operands[1].clone()
        } else {
            String::new()
        };
        Ok(Command::build(verb, flags, first, second))
    }

    /// The command that a line spells: the line is split into words as a
    /// shell would, and the words are parsed. A line whose quoting is broken
    /// has no words.
    pub fn try_parse(input: &str) -> (r: Result<Command, ParseError>)
        ensures
            parsed_as(r, parse(line_words(input@))),
    {
        let words = words_of(input);
        Command::parse_words(&words)
    }
}

/// Whether `flags` holds only flags that `verb` takes.
pub open spec fn verb_flags_fit(verb: Verb, flags: FlagSet) -> bool {
    verb == Verb::Show || flags == FlagSet::none()
}

/// A letter that spells no flag, once met, fails the cluster.
pub proof fn lemma_cluster_stuck(v: Verb, letters: Seq<char>, flags: FlagSet, i: int)
    requires
        0 <= i < letters.len(),
        cluster(v, letters.take(i + 1), flags).is_none(),
    ensures
        cluster(v, letters, flags).is_none(),
    decreases letters.len() - i,
{
    if i + 1 < letters.len() {
        assert(letters.take(i + 2).drop_last() =~= letters.take(i + 1));
        lemma_cluster_stuck(v, letters, flags, i + 1);
    } else {
        assert(letters.take(i + 1) =~= letters);
    }
}

} // verus!
