//! Console text rendering and the passphrase-prompting capability.
//!
//! Every function here computes the exact text to show; writing it to a
//! terminal, and any real prompting, is the caller's business. Coloured text
//! is stated concretely, down to the escape sequences: crossterm suppresses
//! colour when the `NO_COLOR` environment variable is set or its runtime
//! switch is flipped, so each coloured piece is specified as one of the two
//! texts the crate can produce, and the message itself always stands
//! verbatim between the escapes.

use vstd::prelude::*;
use vstd::string::*;

use crate::pass::{EntryView, PasswordEntry, Passwords};
use crate::store::PasswordStore;

verus! {

/// Console message classes; each maps to one colour.
#[derive(Clone, Copy, Debug)]
pub enum MessageType {
    Success,
    Error,
    Warning,
    Info,
    DarkRed,
    DarkYellow,
}

/// The foreground code crossterm writes for this class's colour.
pub open spec fn ansi_color_code(t: MessageType) -> Seq<char> {
    match t {
        MessageType::Success => "38;5;10"@,
        MessageType::Error => "38;5;9"@,
        MessageType::Warning => "38;5;11"@,
        MessageType::Info => "38;5;12"@,
        MessageType::DarkRed => "38;5;1"@,
        MessageType::DarkYellow => "38;5;3"@,
    }
}

/// What stands before a coloured message: the colour's escape sequence, or a
/// bare `ESC[m` when colour output is switched off.
pub open spec fn ansi_color_prefix(t: MessageType, plain: bool) -> Seq<char> {
    if plain {
        seq!['\u{1b}', '[', 'm']
    } else {
        seq!['\u{1b}', '['] + ansi_color_code(t) + seq!['m']
    }
}

/// What stands after a coloured message: the foreground reset, or a bare
/// `ESC[m` when colour output is switched off.
pub open spec fn ansi_color_reset(plain: bool) -> Seq<char> {
    if plain {
        seq!['\u{1b}', '[', 'm']
    } else {
        seq!['\u{1b}', '[', '3', '9', 'm']
    }
}

/// A coloured message as crossterm renders it. The two flags record the
/// state of the colour switch at the prefix and at the reset: it lives in
/// the environment and can change between the two writes.
pub open spec fn colorized_text(
    m: Seq<char>,
    t: MessageType,
    plain_prefix: bool,
    plain_reset: bool,
) -> Seq<char> {
    ansi_color_prefix(t, plain_prefix) + m + ansi_color_reset(plain_reset)
}

/// Whether `out` shows the message `m` with class `t`: coloured under some
/// state of the colour switch when a class is given, plain otherwise. Either
/// way `m` stands verbatim in `out`.
pub open spec fn is_rendered(out: Seq<char>, m: Seq<char>, t: Option<MessageType>) -> bool {
    match t {
        Some(mt) => exists|p1: bool, p2: bool| out == colorized_text(m, mt, p1, p2),
        None => out == m,
    }
}

/// A rendered message shows the message verbatim: whatever the state of the
/// colour switch, the output is the message with escape text around it.
pub proof fn lemma_rendered_verbatim(out: Seq<char>, m: Seq<char>, t: Option<MessageType>)
    requires
        is_rendered(out, m, t),
    ensures
        exists|pre: Seq<char>, post: Seq<char>| out == #[trigger] (pre + m + post),
{
    match t {
        Some(mt) => {
            let (p1, p2) = choose|p1: bool, p2: bool| out == colorized_text(m, mt, p1, p2);
            assert(out == ansi_color_prefix(mt, p1) + m + ansi_color_reset(p2));
        },
        None => {
            assert(out == Seq::<char>::empty() + m + Seq::<char>::empty()) by {
                assert(Seq::<char>::empty() + m + Seq::<char>::empty() =~= m);
            }
        },
    }
}

/// Relies on crossterm's `style(...).with(colour)` rendering: it writes the
/// colour sequence `ESC[38;5;<n>m` (a bare `ESC[m` when the `NO_COLOR`
/// switch disables colour), the message, and the foreground reset `ESC[39m`
/// (again `ESC[m` when disabled), the switch being read once for each.
#[verifier::external_body]
pub fn colorize(message: &str, message_type: MessageType) -> (r: String)
    ensures
        is_rendered(r@, message@, Some(message_type)),
{
    let color = match message_type {
        MessageType::Success => crossterm::style::Color::Green,
        MessageType::Error => crossterm::style::Color::Red,
        MessageType::Warning => crossterm::style::Color::Yellow,
        MessageType::Info => crossterm::style::Color::Blue,
        MessageType::DarkRed => crossterm::style::Color::DarkRed,
        MessageType::DarkYellow => crossterm::style::Color::DarkYellow,
    };
    crossterm::style::Stylize::with(crossterm::style::style(message), color).to_string()
}

/// The emboldened text: the bold escape, the message, the attribute reset.
pub open spec fn bold_text(m: Seq<char>) -> Seq<char> {
    seq!['\u{1b}', '[', '1', 'm'] + m + seq!['\u{1b}', '[', '0', 'm']
}

/// Relies on crossterm's `style(...).attribute(Bold)` rendering: attributes
/// are not gated by the colour switch, so the output is exactly `ESC[1m`,
/// the message, and `ESC[0m`.
#[verifier::external_body]
pub fn bold(message: &str) -> (r: String)
    ensures
        r@ == bold_text(message@),
{
    crossterm::style::Stylize::attribute(
        crossterm::style::style(message),
        crossterm::style::Attribute::Bold,
    ).to_string()
}

/// Whether `out` is the console line for `m`: the rendered message and a
/// newline.
pub open spec fn is_print_line(out: Seq<char>, m: Seq<char>, t: Option<MessageType>) -> bool {
    exists|body: Seq<char>| is_rendered(body, m, t) && out == body + "\n"@
}

/// The line that `print` produces for a message.
pub fn print(message: &str, message_type: Option<MessageType>) -> (r: String)
    ensures
        is_print_line(r@, message@, message_type),
{
    let mut out = match message_type {
        Some(mt) => colorize(message, mt),
        None => String::from_str(message),
    };
    let ghost body = out@;
    out.append("\n");
    proof {
        assert(is_rendered(body, message@, message_type) && out@ == body + "\n"@);
    }
    out
}

/// Whether `out` is a `key: value` line: each part rendered with its class,
/// joined by `": "` and closed by `end`.
pub open spec fn is_rendered_kv(
    out: Seq<char>,
    key: Seq<char>,
    value: Seq<char>,
    key_t: Option<MessageType>,
    value_t: Option<MessageType>,
    end: Seq<char>,
) -> bool {
    exists|k: Seq<char>, v: Seq<char>|
        is_rendered(k, key, key_t) && is_rendered(v, value, value_t) && out == k + ": "@ + v + end
}

/// The text that a `key: value` console line carries; `end` falls back to a
/// newline.
pub fn print_key_value_with_color(
    key: &str,
    value: &str,
    key_message_type: Option<MessageType>,
    value_message_type: Option<MessageType>,
    end: Option<&str>,
) -> (r: String)
    ensures
        is_rendered_kv(
            r@,
            key@,
            value@,
            key_message_type,
            value_message_type,
            match end {
                Some(e) => e@,
                None => "\n"@,
            },
        ),
{
    let mut out = match key_message_type {
        Some(t) => colorize(key, t),
        None => String::from_str(key),
    };
    let ghost k = out@;
    out.append(": ");
    let v = match value_message_type {
        Some(t) => colorize(value, t),
        None => String::from_str(value),
    };
    out.append(v.as_str());
    match end {
        Some(e) => out.append(e),
        None => out.append("\n"),
    }
    proof {
        let endseq = match end {
            Some(e) => e@,
            None => "\n"@,
        };
        assert(is_rendered(k, key@, key_message_type));
        assert(is_rendered(v@, value@, value_message_type));
        assert(out@ =~= k + ": "@ + v@ + endseq);
    }
    out
}

/// How an entry's username is listed: a `Username` line when there is one,
/// nothing otherwise.
pub open spec fn is_rendered_username(
    out: Seq<char>,
    username: Option<Seq<char>>,
    t: Option<MessageType>,
) -> bool {
    match username {
        Some(u) => is_rendered_kv(out, "Username"@, u, None, t, ","@),
        None => out == Seq::<char>::empty(),
    }
}

/// How one entry is listed: service and optional username, each closed by a
/// comma, then the password — verbatim when shown, the `***` mask otherwise
/// — closing the line.
pub open spec fn is_rendered_entry(
    out: Seq<char>,
    e: EntryView,
    show: bool,
    t: Option<MessageType>,
) -> bool {
    exists|service_part: Seq<char>, username_part: Seq<char>, password_part: Seq<char>|
        {
            &&& is_rendered_kv(service_part, "Service"@, e.service, None, t, ","@)
            &&& is_rendered_username(username_part, e.username, t)
            &&& is_rendered_kv(
                password_part,
                "Password"@,
                if show {
                    e.password
                } else {
                    "***"@
                },
                None,
                t,
                "\n"@,
            )
            &&& out == service_part + username_part + password_part
        }
}

/// The listed entries, in insertion order.
pub open spec fn is_rendered_entries(
    out: Seq<char>,
    es: Seq<EntryView>,
    show: bool,
    t: Option<MessageType>,
) -> bool
    decreases es.len(),
{
    if es.len() == 0 {
        out == Seq::<char>::empty()
    } else {
        exists|front: Seq<char>, last: Seq<char>|
            {
                &&& is_rendered_entries(front, es.drop_last(), show, t)
                &&& is_rendered_entry(last, es.last(), show, t)
                &&& out == front + last
            }
    }
}

/// The whole listing: every entry, or a warning line when there is none.
pub open spec fn is_rendered_listing(
    out: Seq<char>,
    es: Seq<EntryView>,
    show: bool,
    t: Option<MessageType>,
) -> bool {
    if es.len() == 0 {
        is_print_line(out, "No passwords found!"@, Some(MessageType::Warning))
    } else {
        is_rendered_entries(out, es, show, t)
    }
}

impl PasswordEntry {
    /// The console line showing this entry's password.
    pub fn print_password(&self, message_type: Option<MessageType>) -> (r: String)
        ensures
            is_rendered_kv(r@, "Password"@, self@.password, None, message_type, "\n"@),
    {
        print_key_value_with_color("Password", self.password.as_str(), None, message_type, None)
    }
}

impl Passwords {
    /// The console listing of all entries, passwords masked unless asked for.
    pub fn print_all(&self, show_passwords: bool, message_type: Option<MessageType>) -> (r: String)
        ensures
            is_rendered_listing(r@, self@, show_passwords, message_type),
    {
        let n = self.0.len();
        if n == 0 {
            return print("No passwords found!", Some(MessageType::Warning));
        }
        let mut out = String::new();
        let mut i: usize = 0;
        while i < n
            invariant
                n == self.0.len(),
                n > 0,
                0 <= i <= n,
                is_rendered_entries(
                    out@,
                    self@.subrange(0, i as int),
                    show_passwords,
                    message_type,
                ),
            decreases n - i,
        {
            let ghost front = out@;
            let e = &self.0[i];
            proof {
                assert(self@[i as int] == self.0[i as int]@);
            }
            let service_part = print_key_value_with_color(
                "Service",
                e.service.as_str(),
                None,
                message_type,
                Some(","),
            );
            out.append(service_part.as_str());
            let ghost mut username_text = Seq::<char>::empty();
            match &e.username {
                Some(u) => {
                    let username_part = print_key_value_with_color(
                        "Username",
                        u.as_str(),
                        None,
                        message_type,
                        Some(","),
                    );
                    out.append(username_part.as_str());
                    proof {
                        username_text = username_part@;
                    }
                },
                None => {},
            }
            let password_part = if show_passwords {
                print_key_value_with_color("Password", e.password.as_str(), None, message_type, None)
            } else {
                print_key_value_with_color("Password", "***", None, message_type, None)
            };
            out.append(password_part.as_str());
            proof {
                let entry_text = service_part@ + username_text + password_part@;
                assert(out@ =~= front + entry_text);
                assert(is_rendered_username(username_text, self@[i as int].username, message_type));
                assert(is_rendered_entry(
                    entry_text,
                    self@[i as int],
                    show_passwords,
                    message_type,
                ));
                let prefix = self@.subrange(0, i + 1);
                assert(prefix.drop_last() =~= self@.subrange(0, i as int));
                assert(prefix.last() == self@[i as int]);
                assert(is_rendered_entries(out@, prefix, show_passwords, message_type));
            }
            i += 1;
        }
        proof {
            assert(self@.subrange(0, n as int) =~= self@);
        }
        out
    }
}

impl PasswordStore {
    /// The console listing of the loaded entries; empty text before a load.
    pub fn print(&self, show_passwords: bool, message_type: Option<MessageType>) -> (r: String)
        ensures
            match self.creds() {
                Some(cs) => is_rendered_listing(r@, cs, show_passwords, message_type),
                None => r@ == Seq::<char>::empty(),
            },
    {
        match &self.passwords {
            Some(p) => p.print_all(show_passwords, message_type),
            None => String::new(),
        }
    }
}

/// The type carried by a failed prompt.
#[verifier::external_type_specification]
#[verifier::external_body]
pub struct ExIoError(std::io::Error);

/// The passphrase-prompting capability the store's callers inject: tests
/// script it, the binary reads the terminal.
pub trait PromptPassword {
    fn prompt_password(&self, prompt: String) -> Result<String, std::io::Error>;
}

/// The Unicode white-space characters, as std's `char::is_whitespace` has
/// them.
pub open spec fn is_space_char(c: char) -> bool {
    c == ' ' || c == '\u{9}' || c == '\u{a}' || c == '\u{b}' || c == '\u{c}' || c == '\u{d}' || c
        == '\u{85}' || c == '\u{a0}' || c == '\u{1680}' || c == '\u{2000}' || c == '\u{2001}' || c
        == '\u{2002}' || c == '\u{2003}' || c == '\u{2004}' || c == '\u{2005}' || c == '\u{2006}'
        || c == '\u{2007}' || c == '\u{2008}' || c == '\u{2009}' || c == '\u{200a}' || c
        == '\u{2028}' || c == '\u{2029}' || c == '\u{202f}' || c == '\u{205f}' || c == '\u{3000}'
}

/// The text without its leading white space.
pub open spec fn trim_start_spec(s: Seq<char>) -> Seq<char>
    decreases s.len(),
{
    if s.len() > 0 && is_space_char(s[0]) {
        trim_start_spec(s.drop_first())
    } else {
        s
    }
}

/// The text without its trailing white space.
pub open spec fn trim_end_spec(s: Seq<char>) -> Seq<char>
    decreases s.len(),
{
    if s.len() > 0 && is_space_char(s.last()) {
        trim_end_spec(s.drop_last())
    } else {
        s
    }
}

/// What trimming leaves: the text without leading and trailing white space.
pub open spec fn trimmed(s: Seq<char>) -> Seq<char> {
    trim_end_spec(trim_start_spec(s))
}

/// Relies on std's `str::trim`: it strips exactly the leading and trailing
/// characters with the Unicode white-space property.
#[verifier::external_body]
fn trim_str(s: &str) -> (r: &str)
    ensures
        r@ == trimmed(s@),
{
    s.trim()
}

/// Whether `out` is the text shown when asking for a hidden line: the
/// request, a newline, and the arrow marker coloured dark yellow.
pub open spec fn is_hidden_prompt(out: Seq<char>, prompt: Seq<char>) -> bool {
    exists|arrows: Seq<char>|
        is_rendered(arrows, ">> "@, Some(MessageType::DarkYellow)) && out == "Please enter the "@
            + prompt + "\n"@ + arrows
}

/// Builds the text shown when asking for a hidden line.
pub fn hidden_input_prompt(prompt: &str) -> (r: String)
    ensures
        is_hidden_prompt(r@, prompt@),
{
    let mut full = String::from_str("Please enter the ");
    full.append(prompt);
    full.append("\n");
    let arrows = colorize(">> ", MessageType::DarkYellow);
    full.append(arrows.as_str());
    proof {
        assert(is_rendered(arrows@, ">> "@, Some(MessageType::DarkYellow)));
        assert(full@ =~= "Please enter the "@ + prompt@ + "\n"@ + arrows@);
    }
    full
}

/// Prompts for a hidden line through the given capability and returns it
/// trimmed, or nothing when the capability failed. The capability is opaque,
/// so the result can only be known to be some trimmed text.
pub fn read_hidden_input<P: PromptPassword>(prompt: &str, prompt_password: &P) -> (r: Option<
    String,
>)
    ensures
        r matches Some(s) ==> exists|raw: Seq<char>| s@ == trimmed(raw),
{
    let full = hidden_input_prompt(prompt);
    match prompt_password.prompt_password(full) {
        Ok(input) => {
            let cleaned = trim_str(input.as_str()).to_owned();
            proof {
                assert(cleaned@ == trimmed(input@));
            }
            Some(cleaned)
        },
        Err(_) => None,
    }
}

} // verus!
