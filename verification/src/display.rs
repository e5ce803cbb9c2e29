//! What a command shows: lines of text, clipboard contents and requests to
//! the program around the library.

use base64::Engine;
use vstd::prelude::*;
use vstd::string::StrSliceExecFns;
use vstd::string::StringExecFns;
use vstd::utf8::encode_utf8;
use crate::text::{text_eq, views};
use crate::tree::{field_text, field_value, Entry, Field, Node, NodeRef, Value};

verus! {

/// Something for the program around the library to do.
#[derive(Debug)]
pub enum Effect {
    /// Print the line on standard output.
    Print(String),
    /// Print the line on standard error.
    Warn(String),
    /// Put the bytes on the clipboard.
    Copy(Vec<u8>),
    /// Show the one-time code that the URL gives now: on a line of its own,
    /// or, where `field` is set, as the value of a field called `otp code`.
    Otp { url: String, field: bool },
    /// Open the store in the file at `path` with `password`.
    Open { path: String, password: String },
}

/// An effect, as plain values.
pub ghost enum EffectModel {
    Print(Seq<char>),
    Warn(Seq<char>),
    Copy(Seq<u8>),
    Otp { url: Seq<char>, field: bool },
    Open { path: Seq<char>, password: Seq<char> },
}

impl Effect {
    /// The effect, as plain values.
    pub open spec fn model(self) -> EffectModel {
        match self {
            Effect::Print(s) => EffectModel::Print(s@),
            Effect::Warn(s) => EffectModel::Warn(s@),
            Effect::Copy(b) => EffectModel::Copy(b@),
            Effect::Otp { url, field } => EffectModel::Otp { url: url@, field },
            Effect::Open { path, password } => EffectModel::Open {
                path: path@,
                password: password@,
            },
        }
    }
}

/// The effects, as plain values.
pub open spec fn models(effects: Seq<Effect>) -> Seq<EffectModel> {
    Seq::new(effects.len(), |i: int| effects[i].model())
}

/// One printed line for each of the given texts.
pub open spec fn prints(lines: Seq<Seq<char>>) -> Seq<EffectModel> {
    Seq::new(lines.len(), |i: int| EffectModel::Print(lines[i]))
}

/// The width to which field names are padded.
pub const FIELD_NAME_WIDTH: usize = 15;

/// The standard base64 encoding, with padding, of the given bytes.
pub uninterp spec fn base64_standard(bytes: Seq<u8>) -> Seq<char>;

/// The title under which an entry is listed: its title where that is plain
/// text, the mark of a secret for a secret one, and a filler where it has
/// none.
pub open spec fn listed_title(e: Entry) -> Seq<char> {
    match field_value(e.fields@, "Title"@) {
        Some(Value::PlainText(s)) => s@,
        Some(Value::Secret(_)) => "*** SECRET ***"@,
        _ => "(no title"@,
    }
}

/// Unless hidden values are asked for, all that is shown of a secret is the
/// mark of a secret.
pub proof fn law_secret_stays_hidden(v: Value)
    requires
        v is Secret,
    ensures
        shown_value(v, false) == "*** SECRET ***"@,
{
}

/// The line that lists a node: a group's name with a slash, an entry's
/// title.
pub open spec fn list_line(n: Node) -> Seq<char> {
    match n {
        Node::Group(g) => g.name@ + "/"@,
        Node::Entry(e) => listed_title(e),
    }
}

/// The lines that list a node: for a group one line per child, in child
/// order; for an entry its title.
pub open spec fn list_lines(n: Node) -> Seq<Seq<char>> {
    match n {
        Node::Entry(e) => seq![listed_title(e)],
        Node::Group(g) => Seq::new(g.children@.len(), |i: int| list_line(g.children@[i])),
    }
}

/// How a value is shown: bytes never, a secret only where hidden values are
/// asked for.
pub open spec fn shown_value(v: Value, show_hidden: bool) -> Seq<char> {
    match v {
        Value::Binary(_) => "(bytes)"@,
        Value::PlainText(s) => s@,
        Value::Secret(s) => if show_hidden {
            s@
        } else {
            "*** SECRET ***"@
        },
    }
}

/// The blanks that pad a name of `len` characters to the field name width.
pub open spec fn padding(len: nat) -> Seq<char> {
    if len >= FIELD_NAME_WIDTH {
        Seq::empty()
    } else {
        Seq::new((FIELD_NAME_WIDTH - len) as nat, |i: int| ' ')
    }
}

/// The line that shows a field: the name, right-aligned, a colon and the
/// value.
pub open spec fn field_line(name: Seq<char>, value: Seq<char>) -> Seq<char> {
    padding(name.len()) + name + ": "@ + value
}

/// How the field called `key` is shown, or `missing` where there is none.
pub open spec fn shown_field(
    fields: Seq<Field>,
    key: Seq<char>,
    missing: Seq<char>,
    show_hidden: bool,
) -> Seq<char> {
    match field_value(fields, key) {
        Some(v) => shown_value(v, show_hidden),
        None => missing,
    }
}

/// The fields that are shown first, under fixed names and in a fixed
/// order.
pub open spec fn is_main_field(name: Seq<char>) -> bool {
    name == "Title"@ || name == "UserName"@ || name == "Password"@ || name == "URL"@
}

/// What stands for the one-time code among the fields of an entry.
pub open spec fn otp_field(e: Entry) -> EffectModel {
    match field_text(e.fields@, "otp"@) {
        Some(url) => EffectModel::Otp { url, field: true },
        None => EffectModel::Print(field_line("otp code"@, "Entry does not have totp!"@)),
    }
}

/// What one field adds to the display of its entry: before a field called
/// `otp`, where hidden values are shown, the one-time code; then the field
/// itself, unless it is one of those shown first.
pub open spec fn field_effects(e: Entry, f: Field, show_hidden: bool) -> Seq<EffectModel> {
    (if f.name@ == "otp"@ && show_hidden {
        seq![otp_field(e)]
    } else {
        Seq::empty()
    }) + (if !is_main_field(f.name@) {
        seq![EffectModel::Print(field_line(f.name@, shown_value(f.value, show_hidden)))]
    } else {
        Seq::empty()
    })
}

/// What the given fields add to the display of their entry, in order.
pub open spec fn fields_effects(e: Entry, fields: Seq<Field>, show_hidden: bool) -> Seq<
    EffectModel,
>
    decreases fields.len(),
{
    if fields.len() == 0 {
        Seq::empty()
    } else {
        fields_effects(e, fields.drop_last(), show_hidden) + field_effects(
            e,
            fields.last(),
            show_hidden,
        )
    }
}

/// The three lines that every entry is shown with.
pub open spec fn main_effects(e: Entry, show_hidden: bool) -> Seq<EffectModel> {
    seq![
        EffectModel::Print(
            field_line("Title"@, shown_field(e.fields@, "Title"@, "(no title)"@, show_hidden)),
        ),
        EffectModel::Print(
            field_line(
                "UserName"@,
                shown_field(e.fields@, "UserName"@, "(no username)"@, show_hidden),
            ),
        ),
        EffectModel::Print(
            field_line(
                "Password"@,
                shown_field(e.fields@, "Password"@, "(no password)"@, show_hidden),
            ),
        ),
    ]
}

/// The line of the URL, for an entry that has one.
pub open spec fn url_effects(e: Entry, show_hidden: bool) -> Seq<EffectModel> {
    match field_value(e.fields@, "URL"@) {
        Some(v) => seq![EffectModel::Print(field_line("URL"@, shown_value(v, show_hidden)))],
        None => Seq::empty(),
    }
}

/// What showing a node does. An entry shows its one-time code where that is
/// asked for, and else its title, user name and password, its URL where it
/// has one, and then its other fields in stored order. A group shows an
/// empty line, and has no one-time code.
pub open spec fn show_effects(n: Node, show_hidden: bool, totp: bool) -> Seq<EffectModel> {
    match n {
        Node::Entry(e) => if totp {
            seq![
                match field_text(e.fields@, "otp"@) {
                    Some(url) => EffectModel::Otp { url, field: false },
                    None => EffectModel::Warn("Entry does not have totp!"@),
                },
            ]
        } else {
            main_effects(e, show_hidden) + url_effects(e, show_hidden) + fields_effects(
                e,
                e.fields@,
                show_hidden,
            )
        },
        Node::Group(_) => if totp {
            seq![EffectModel::Warn("Can't show totp for group!"@)]
        } else {
            seq![EffectModel::Print(""@)]
        },
    }
}

/// What copying the field called `name` does: its text or bytes go to the
/// clipboard, and a field that is not there is reported.
pub open spec fn copy_effects(e: Entry, name: Seq<char>) -> Seq<EffectModel> {
    match field_value(e.fields@, name) {
        Some(Value::PlainText(s)) => clipboard_effects(encode_utf8(s@)),
        Some(Value::Secret(s)) => clipboard_effects(encode_utf8(s@)),
        Some(Value::Binary(b)) => clipboard_effects(b@),
        None => seq![EffectModel::Warn(name + " is not set!"@)],
    }
}

/// What putting bytes on the clipboard does.
pub open spec fn clipboard_effects(bytes: Seq<u8>) -> Seq<EffectModel> {
    seq![EffectModel::Copy(bytes), EffectModel::Print("Done!"@)]
}

/// The escape sequence that makes a terminal put `bytes` on the clipboard,
/// wrapped for a terminal multiplexer where one is in between.
pub open spec fn clipboard_sequence(bytes: Seq<u8>, tmux: bool) -> Seq<char> {
    if tmux {
        "\x1bPtmux;\x1b\x1b]52;c;"@ + base64_standard(bytes) + "\x1b\x5c"@
    } else {
        "\x1b]52;c;"@ + base64_standard(bytes)
    }
}

/// What is shown for a one-time code once the program has tried to make it:
/// the code, or the reason why there is none. On a line of its own the code
/// is printed and the reason is a warning; as a field, either is the value
/// of the field `otp code`.
pub open spec fn otp_shown(made: Result<Seq<char>, Seq<char>>, field: bool) -> EffectModel {
    let text = match made {
        Ok(code) => code,
        Err(reason) => "Error generating totp: "@ + reason,
    };
    if field {
        EffectModel::Print(field_line("otp code"@, text))
    } else if made is Ok {
        EffectModel::Print(text)
    } else {
        EffectModel::Warn(text)
    }
}

/// What to show for a one-time code that the program has tried to make.
pub fn otp_effect(made: Result<String, String>, field: bool) -> (r: Effect)
    ensures
        r.model() == otp_shown(
            match made {
                Ok(code) => Ok(code@),
                Err(reason) => Err(reason@),
            },
            field,
        ),
{
    let ok = made.is_ok();
    let text = match made {
        Ok(code) => code,
        Err(reason) => {
            let mut m = "Error generating totp: ".to_owned();
            m.append(reason.as_str());
            m
        },
    };
    if field {
        Effect::Print(format_field("otp code", text.as_str()))
    } else if ok {
        Effect::Print(text)
    } else {
        Effect::Warn(text)
    }
}

/// Encodes bytes by `encode` of base64's `STANDARD` engine: the standard
/// alphabet with padding. The contract only names the result. The call
/// computes the encoded size with a checked multiplication, which no slice
/// that fits in memory overflows.
#[verifier::external_body]
fn base64_encode(value: &[u8]) -> (r: String)
    ensures
        r@ == base64_standard(value@),
{
    base64::engine::general_purpose::STANDARD.encode(value)
}

/// The escape sequence that puts `value` on the clipboard.
pub fn osc52_sequence(value: &[u8], tmux: bool) -> (r: String)
    ensures
        r@ == clipboard_sequence(value@, tmux),
{
    let b64 = base64_encode(value);
    if tmux {
        let mut r = "\x1bPtmux;\x1b\x1b]52;c;".to_owned();
        r.append(b64.as_str());
        r.append("\x1b\x5c");
        r
    } else {
        let mut r = "\x1b]52;c;".to_owned();
        r.append(b64.as_str());
        r
    }
}

/// The effects of putting `value` on the clipboard.
pub fn print_value_as_osc52(value: &[u8]) -> (out: Vec<Effect>)
    ensures
        models(out@) == clipboard_effects(value@),
{
    let mut out: Vec<Effect> = Vec::new();
    out.push(Effect::Copy(vstd::slice::slice_to_vec(value)));
    out.push(Effect::Print("Done!".to_owned()));
    assert(models(out@) =~= clipboard_effects(value@));
    out
}

/// The effects of copying the field called `field_name` of `entry`.
pub fn copy_entry_field(entry: &Entry, field_name: &str) -> (out: Vec<Effect>)
    ensures
        models(out@) == copy_effects(*entry, field_name@),
{
    match entry.field(field_name) {
        Some(Value::PlainText(s)) => print_value_as_osc52(s.as_str().as_bytes()),
        Some(Value::Secret(s)) => print_value_as_osc52(s.as_str().as_bytes()),
        Some(Value::Binary(b)) => print_value_as_osc52(b.as_slice()),
        None => {
            let mut m = field_name.to_owned();
            m.append(" is not set!");
            let mut out: Vec<Effect> = Vec::new();
            out.push(Effect::Warn(m));
            assert(models(out@) =~= copy_effects(*entry, field_name@));
            out
        },
    }
}

/// The title under which `e` is listed.
fn title_for_list(e: &Entry) -> (r: String)
    ensures
        r@ == listed_title(*e),
{
    match e.field("Title") {
        Some(Value::PlainText(s)) => s.clone(),
        Some(Value::Secret(_)) => "*** SECRET ***".to_owned(),
        _ => "(no title".to_owned(),
    }
}

/// The lines that list `node`.
pub fn list_node(node: NodeRef<'_>) -> (out: Vec<String>)
    ensures
        views(out@) == list_lines(node.node()),
{
    let mut out: Vec<String> = Vec::new();
    match node {
        NodeRef::Entry(e) => {
            out.push(title_for_list(e));
        },
        NodeRef::Group(g) => {
            let mut i: usize = 0;
            while i < g.children.len()
                invariant
                    i <= g.children@.len(),
                    out@.len() == i,
                    forall|j: int| 0 <= j < i ==> out@[j]@ == list_line(g.children@[j]),
                decreases g.children@.len() - i,
            {
                match &g.children[i] {
                    Node::Group(c) => {
                        let mut line = c.name.clone();
                        line.append("/");
                        out.push(line);
                    },
                    Node::Entry(e) => {
                        out.push(title_for_list(e));
                    },
                }
                i += 1;
            }
        },
    }
    assert(views(out@) =~= list_lines(node.node()));
    out
}

/// How `val` is shown.
pub fn get_value(val: &Value, show_hidden: bool) -> (r: &str)
    ensures
        r@ == shown_value(*val, show_hidden),
{
    match val {
        Value::Binary(_) => "(bytes)",
        Value::PlainText(s) => s.as_str(),
        Value::Secret(s) => {
            if show_hidden {
                s.as_str()
            } else {
                "*** SECRET ***"
            }
        },
    }
}

/// The line that shows a field.
pub fn format_field(name: &str, value: &str) -> (r: String)
    ensures
        r@ == field_line(name@, value@),
{
    let n = name.unicode_len();
    let mut r = String::new();
    let mut i: usize = n;
    proof {
        reveal_strlit(" ");
    }
    while i < FIELD_NAME_WIDTH
        invariant
            n <= i,
            i <= FIELD_NAME_WIDTH || i == n,
            " "@.len() == 1,
            " "@[0] == ' ',
            r@.len() == i - n,
            forall|j: int| 0 <= j < r@.len() ==> r@[j] == ' ',
        decreases FIELD_NAME_WIDTH - i,
    {
        r.append(" ");
        i += 1;
    }
    assert(r@ =~= padding(n as nat));
    r.append(name);
    r.append(": ");
    r.append(value);
    r
}

/// The line that shows the field called `key` of `e`, or `missing` in place
/// of its value where there is no such field.
fn main_line(e: &Entry, key: &str, missing: &str, show_hidden: bool) -> (r: Effect)
    ensures
        r.model() == EffectModel::Print(
            field_line(key@, shown_field(e.fields@, key@, missing@, show_hidden)),
        ),
{
    let value = match e.field(key) {
        Some(v) => get_value(v, show_hidden),
        None => missing,
    };
    Effect::Print(format_field(key, value))
}

/// The effects of showing `node`.
pub fn print_node(node: NodeRef<'_>, show_hidden: bool, totp: bool) -> (out: Vec<Effect>)
    ensures
        models(out@) == show_effects(node.node(), show_hidden, totp),
{
    let mut out: Vec<Effect> = Vec::new();
    match node {
        NodeRef::Entry(e) => {
            if totp {
                match e.get("otp") {
                    Some(url) => {
                        out.push(Effect::Otp { url: url.to_owned(), field: false });
                    },
                    None => {
                        out.push(Effect::Warn("Entry does not have totp!".to_owned()));
                    },
                }
                assert(models(out@) =~= show_effects(node.node(), show_hidden, totp));
                return out;
            }
            out.push(main_line(e, "Title", "(no title)", show_hidden));
            out.push(main_line(e, "UserName", "(no username)", show_hidden));
            out.push(main_line(e, "Password", "(no password)", show_hidden));
            assert(models(out@) =~= main_effects(*e, show_hidden));
            match e.field("URL") {
                Some(v) => {
                    out.push(Effect::Print(format_field("URL", get_value(v, show_hidden))));
                },
                None => {},
            }
            assert(models(out@) =~= main_effects(*e, show_hidden) + url_effects(*e, show_hidden));
            let mut i: usize = 0;
            assert(e.fields@.take(0) =~= Seq::<Field>::empty());
            assert(models(out@) =~= main_effects(*e, show_hidden) + url_effects(*e, show_hidden)
                + fields_effects(*e, e.fields@.take(0), show_hidden));
            while i < e.fields.len()
                invariant
                    i <= e.fields@.len(),
                    models(out@) == main_effects(*e, show_hidden) + url_effects(*e, show_hidden)
                        + fields_effects(*e, e.fields@.take(i as int), show_hidden),
                decreases e.fields@.len() - i,
            {
                let f = &e.fields[i];
                let ghost before = models(out@);
                proof {
                    assert(e.fields@.take(i + 1).drop_last() =~= e.fields@.take(i as int));
                    assert(e.fields@.take(i + 1).last() == *f);
                }
                let name = f.name.as_str();
                if text_eq(name, "otp") && show_hidden {
                    match e.get("otp") {
                        Some(url) => {
                            out.push(Effect::Otp { url: url.to_owned(), field: true });
                        },
                        None => {
                            out.push(
                                Effect::Print(
                                    format_field("otp code", "Entry does not have totp!"),
                                ),
                            );
                        },
                    }
                }
                if !(text_eq(name, "Title") || text_eq(name, "UserName") || text_eq(
                    name,
                    "Password",
                ) || text_eq(name, "URL")) {
                    out.push(Effect::Print(format_field(name, get_value(&f.value, show_hidden))));
                }
                assert(models(out@) =~= before + field_effects(*e, *f, show_hidden));
                i += 1;
            }
            assert(e.fields@.take(i as int) =~= e.fields@);
        },
        NodeRef::Group(_) => {
            if totp {
                out.push(Effect::Warn("Can't show totp for group!".to_owned()));
            } else {
                out.push(Effect::Print("".to_owned()));
            }
            assert(models(out@) =~= show_effects(node.node(), show_hidden, totp));
        },
    }
    out
}

} // verus!
