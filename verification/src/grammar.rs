//! The command grammar: the closed set of commands, their flags and their
//! operands.

use vstd::prelude::*;
use crate::text::text_eq;

verus! {

/// The commands of the shell, in the order in which they are listed.
#[derive(Clone, Copy, PartialEq, Eq, Structural, Debug)]
pub enum Verb {
    ListDir,
    ChangeDir,
    Show,
    CopyPassword,
    CopyUsername,
    CopyURL,
    ClearClipboard,
    OpenDB,
    CloseDB,
}

/// The flags that commands take. A flag is either present or absent.
#[derive(Clone, Copy, PartialEq, Eq, Structural, Debug)]
pub enum Flag {
    /// `-s`: show hidden values.
    ShowHidden,
    /// `-t`, `--totp`: show the one-time code.
    Totp,
}

/// A set of flags.
#[derive(Clone, Copy, PartialEq, Eq, Structural, Debug)]
pub struct FlagSet {
    pub show_hidden: bool,
    pub totp: bool,
}

/// The name by which a command is called.
pub open spec fn verb_name(v: Verb) -> Seq<char> {
    match v {
        Verb::ListDir => "ls"@,
        Verb::ChangeDir => "cd"@,
        Verb::Show => "show"@,
        Verb::CopyPassword => "cp"@,
        Verb::CopyUsername => "cu"@,
        Verb::CopyURL => "cw"@,
        Verb::ClearClipboard => "cx"@,
        Verb::OpenDB => "open"@,
        Verb::CloseDB => "close"@,
    }
}

/// All commands, in listing order.
pub open spec fn all_verbs() -> Seq<Verb> {
    seq![
        Verb::ListDir,
        Verb::ChangeDir,
        Verb::Show,
        Verb::CopyPassword,
        Verb::CopyUsername,
        Verb::CopyURL,
        Verb::ClearClipboard,
        Verb::OpenDB,
        Verb::CloseDB,
    ]
}

/// The names of all commands, in listing order.
pub open spec fn all_verb_names() -> Seq<Seq<char>> {
    Seq::new(all_verbs().len(), |i: int| verb_name(all_verbs()[i]))
}

/// The first command, in listing order, that is called `name`.
pub open spec fn verb_named_from(name: Seq<char>, from: int) -> Option<Verb>
    decreases all_verbs().len() - from,
{
    if from < 0 || from >= all_verbs().len() {
        None
    } else if verb_name(all_verbs()[from]) == name {
        Some(all_verbs()[from])
    } else {
        verb_named_from(name, from + 1)
    }
}

/// The command that is called `name`.
pub open spec fn verb_named(name: Seq<char>) -> Option<Verb> {
    verb_named_from(name, 0)
}

/// The flags that a command takes, in declaration order.
pub open spec fn verb_flags(v: Verb) -> Seq<Flag> {
    match v {
        Verb::Show => seq![Flag::ShowHidden, Flag::Totp],
        _ => Seq::empty(),
    }
}

/// The least number of operands that a command needs.
pub open spec fn min_operands(v: Verb) -> nat {
    match v {
        Verb::ListDir | Verb::ChangeDir | Verb::ClearClipboard | Verb::CloseDB => 0,
        Verb::Show | Verb::CopyPassword | Verb::CopyUsername | Verb::CopyURL => 1,
        Verb::OpenDB => 2,
    }
}

/// The greatest number of operands that a command takes.
pub open spec fn max_operands(v: Verb) -> nat {
    match v {
        Verb::ClearClipboard | Verb::CloseDB => 0,
        Verb::ListDir | Verb::ChangeDir | Verb::Show | Verb::CopyPassword | Verb::CopyUsername
        | Verb::CopyURL => 1,
        Verb::OpenDB => 2,
    }
}

/// Whether a command's operand is a path into the tree, to be completed from
/// the tree's node names. Other operands are free text.
pub open spec fn takes_tree_path(v: Verb) -> bool {
    match v {
        Verb::ListDir | Verb::ChangeDir | Verb::Show | Verb::CopyPassword | Verb::CopyUsername
        | Verb::CopyURL => true,
        Verb::ClearClipboard | Verb::OpenDB | Verb::CloseDB => false,
    }
}

/// The one-letter spelling of a flag.
pub open spec fn flag_short(f: Flag) -> Option<char> {
    match f {
        Flag::ShowHidden => Some('s'),
        Flag::Totp => Some('t'),
    }
}

/// The long spelling of a flag.
pub open spec fn flag_long(f: Flag) -> Option<Seq<char>> {
    match f {
        Flag::ShowHidden => None,
        Flag::Totp => Some("totp"@),
    }
}

/// The first flag of `flags`, at or after `from`, whose one-letter spelling
/// is `c`.
pub open spec fn short_flag_from(flags: Seq<Flag>, c: char, from: int) -> Option<Flag>
    decreases flags.len() - from,
{
    if from < 0 || from >= flags.len() {
        None
    } else if flag_short(flags[from]) == Some(c) {
        Some(flags[from])
    } else {
        short_flag_from(flags, c, from + 1)
    }
}

/// The first flag of `flags`, at or after `from`, whose long spelling is
/// `name`.
pub open spec fn long_flag_from(flags: Seq<Flag>, name: Seq<char>, from: int) -> Option<Flag>
    decreases flags.len() - from,
{
    if from < 0 || from >= flags.len() {
        None
    } else if flag_long(flags[from]) == Some(name) {
        Some(flags[from])
    } else {
        long_flag_from(flags, name, from + 1)
    }
}

/// The flag of command `v` whose one-letter spelling is `c`.
pub open spec fn short_flag(v: Verb, c: char) -> Option<Flag> {
    short_flag_from(verb_flags(v), c, 0)
}

/// The flag of command `v` whose long spelling is `name`.
pub open spec fn long_flag(v: Verb, name: Seq<char>) -> Option<Flag> {
    long_flag_from(verb_flags(v), name, 0)
}

impl FlagSet {
    /// Whether the set holds `f`.
    pub open spec fn has(self, f: Flag) -> bool {
        match f {
            Flag::ShowHidden => self.show_hidden,
            Flag::Totp => self.totp,
        }
    }

    /// The set with `f` added.
    pub open spec fn with(self, f: Flag) -> FlagSet {
        match f {
            Flag::ShowHidden => FlagSet { show_hidden: true, totp: self.totp },
            Flag::Totp => FlagSet { show_hidden: self.show_hidden, totp: true },
        }
    }

    /// The set without any flag.
    pub open spec fn none() -> FlagSet {
        FlagSet { show_hidden: false, totp: false }
    }

    /// The set without any flag.
    pub fn empty() -> (r: FlagSet)
        ensures
            r == FlagSet::none(),
    {
        FlagSet { show_hidden: false, totp: false }
    }

    /// Whether the set holds `f`.
    pub fn contains(&self, f: Flag) -> (r: bool)
        ensures
            r == self.has(f),
    {
        match f {
            Flag::ShowHidden => self.show_hidden,
            Flag::Totp => self.totp,
        }
    }

    /// The set with `f` added.
    pub fn insert(&self, f: Flag) -> (r: FlagSet)
        ensures
            r == self.with(f),
    {
        match f {
            Flag::ShowHidden => FlagSet { show_hidden: true, totp: self.totp },
            Flag::Totp => FlagSet { show_hidden: self.show_hidden, totp: true },
        }
    }
}

impl Flag {
    /// The one-letter spelling of the flag.
    pub fn short(self) -> (r: Option<char>)
        ensures
            r == flag_short(self),
    {
        match self {
            Flag::ShowHidden => Some('s'),
            Flag::Totp => Some('t'),
        }
    }

    /// The long spelling of the flag.
    pub fn long(self) -> (r: Option<&'static str>)
        ensures
            match r {
                Some(l) => flag_long(self) == Some(l@),
                None => flag_long(self).is_none(),
            },
    {
        match self {
            Flag::ShowHidden => None,
            Flag::Totp => Some("totp"),
        }
    }
}

impl Verb {
    /// The name by which the command is called.
    pub fn name(self) -> (r: &'static str)
        ensures
            r@ == verb_name(self),
    {
        match self {
            Verb::ListDir => "ls",
            Verb::ChangeDir => "cd",
            Verb::Show => "show",
            Verb::CopyPassword => "cp",
            Verb::CopyUsername => "cu",
            Verb::CopyURL => "cw",
            Verb::ClearClipboard => "cx",
            Verb::OpenDB => "open",
            Verb::CloseDB => "close",
        }
    }

    /// All commands, in listing order.
    pub fn all() -> (r: Vec<Verb>)
        ensures
            r@ == all_verbs(),
    {
        let r = vec![
            Verb::ListDir,
            Verb::ChangeDir,
            Verb::Show,
            Verb::CopyPassword,
            Verb::CopyUsername,
            Verb::CopyURL,
            Verb::ClearClipboard,
            Verb::OpenDB,
            Verb::CloseDB,
        ];
        assert(r@ =~= all_verbs());
        r
    }

    /// The command that is called `name`.
    pub fn from_name(name: &str) -> (r: Option<Verb>)
        ensures
            r == verb_named(name@),
    {
        let verbs = Verb::all();
        let mut i: usize = 0;
        while i < verbs.len()
            invariant
                verbs@ == all_verbs(),
                i <= verbs@.len(),
                verb_named(name@) == verb_named_from(name@, i as int),
            decreases verbs@.len() - i,
        {
            if text_eq(verbs[i].name(), name) {
                return Some(verbs[i]);
            }
            i += 1;
        }
        None
    }

    /// The flags that the command takes, in declaration order.
    pub fn flags(self) -> (r: Vec<Flag>)
        ensures
            r@ == verb_flags(self),
    {
        match self {
            Verb::Show => {
                let r = vec![Flag::ShowHidden, Flag::Totp];
                assert(r@ =~= verb_flags(self));
                r
            },
            _ => {
                let r: Vec<Flag> = Vec::new();
                assert(r@ =~= verb_flags(self));
                r
            },
        }
    }

    /// The least number of operands that the command needs.
    pub fn min_operands(self) -> (r: usize)
        ensures
            r == min_operands(self),
    {
        match self {
            Verb::ListDir | Verb::ChangeDir | Verb::ClearClipboard | Verb::CloseDB => 0,
            Verb::Show | Verb::CopyPassword | Verb::CopyUsername | Verb::CopyURL => 1,
            Verb::OpenDB => 2,
        }
    }

    /// The greatest number of operands that the command takes.
    pub fn max_operands(self) -> (r: usize)
        ensures
            r == max_operands(self),
    {
        match self {
            Verb::ClearClipboard | Verb::CloseDB => 0,
            Verb::ListDir | Verb::ChangeDir | Verb::Show | Verb::CopyPassword
            | Verb::CopyUsername | Verb::CopyURL => 1,
            Verb::OpenDB => 2,
        }
    }

    /// Whether the command's operand is a path into the tree.
    pub fn takes_tree_path(self) -> (r: bool)
        ensures
            r == takes_tree_path(self),
    {
        match self {
            Verb::ListDir | Verb::ChangeDir | Verb::Show | Verb::CopyPassword
            | Verb::CopyUsername | Verb::CopyURL => true,
            Verb::ClearClipboard | Verb::OpenDB | Verb::CloseDB => false,
        }
    }

    /// The flag of the command whose one-letter spelling is `c`.
    pub fn short_flag(self, c: char) -> (r: Option<Flag>)
        ensures
            r == short_flag(self, c),
    {
        let flags = self.flags();
        let mut i: usize = 0;
        while i < flags.len()
            invariant
                flags@ == verb_flags(self),
                i <= flags@.len(),
                short_flag(self, c) == short_flag_from(flags@, c, i as int),
            decreases flags@.len() - i,
        {
            match flags[i].short() {
                Some(s) => {
                    if s == c {
                        return Some(flags[i]);
                    }
                },
                None => {},
            }
            i += 1;
        }
        None
    }

    /// The flag of the command whose long spelling is `name`.
    pub fn long_flag(self, name: &str) -> (r: Option<Flag>)
        ensures
            r == long_flag(self, name@),
    {
        let flags = self.flags();
        let mut i: usize = 0;
        while i < flags.len()
            invariant
                flags@ == verb_flags(self),
                i <= flags@.len(),
                long_flag(self, name@) == long_flag_from(flags@, name@, i as int),
            decreases flags@.len() - i,
        {
            match flags[i].long() {
                Some(l) => {
                    if text_eq(l, name) {
                        return Some(flags[i]);
                    }
                },
                None => {},
            }
            i += 1;
        }
        None
    }
}

} // verus!
