//! The command grammar: `\name` or `\name{argument}`.
//!
//! A name is one or more ASCII letters. An argument is any run of characters
//! without a closing brace or a line break, and it must be closed by a brace
//! on the same line. A name followed by an opening brace always takes an
//! argument; if that argument is never closed, nothing is recognised.

use vstd::prelude::*;
use crate::buffer::Span;
use crate::chars::{is_argument_char, is_letter, letter};
use crate::text::{append_range, chars_of, string_of, substring};

verus! {

/// The mathematical content of a [`Command`].
pub struct CommandView {
    pub name: Seq<char>,
    pub argument: Option<Seq<char>>,
    pub start: int,
    pub end: int,
}

impl CommandView {
    /// The name and the argument obey the grammar.
    pub open spec fn well_formed(self) -> bool {
        &&& self.name.len() > 0
        &&& forall|i: int| 0 <= i < self.name.len() ==> is_letter(#[trigger] self.name[i])
        &&& match self.argument {
            Some(argument) => forall|i: int|
                0 <= i < argument.len() ==> is_argument_char(#[trigger] argument[i]),
            None => true,
        }
    }

    /// The source text of the command: `\name{argument}`, or `\name` when it
    /// has no argument.
    pub open spec fn raw_text(self) -> Seq<char> {
        match self.argument {
            Some(argument) => seq!['\\'] + self.name + seq!['{'] + argument + seq!['}'],
            None => seq!['\\'] + self.name,
        }
    }

    /// The span of the command has the length of its source text.
    pub open spec fn fills_span(self) -> bool {
        0 <= self.start && self.end == self.start + self.raw_text().len()
    }

    /// The same command, `by` characters further right.
    pub open spec fn shifted(self, by: int) -> CommandView {
        CommandView { start: self.start + by, end: self.end + by, ..self }
    }
}

/// A command found in a text: its name, its argument if it has one, and the
/// span of its source text.
#[derive(Clone, Debug, PartialEq, Eq)]
pub struct Command {
    pub name: String,
    pub argument_text: Option<String>,
    pub span: Span,
}

impl View for Command {
    type V = CommandView;

    open spec fn view(&self) -> CommandView {
        CommandView {
            name: self.name@,
            argument: match self.argument_text {
                Some(argument) => Some(argument@),
                None => None,
            },
            start: self.span.start as int,
            end: self.span.end as int,
        }
    }
}

impl Command {
    /// The source text of the command.
    pub fn raw_text(&self) -> (raw: String)
        ensures
            raw@ == self@.raw_text(),
    {
        let name = chars_of(self.name.as_str());
        let mut raw: Vec<char> = Vec::new();
        raw.push('\\');
        append_range(&mut raw, name.as_slice(), 0, name.len());
        match &self.argument_text {
            Some(argument) => {
                let argument = chars_of(argument.as_str());
                raw.push('{');
                append_range(&mut raw, argument.as_slice(), 0, argument.len());
                raw.push('}');
                assert(raw@ =~= self@.raw_text());
            },
            None => {
                assert(raw@ =~= self@.raw_text());
            },
        }
        string_of(raw.as_slice())
    }
}

/// `text` begins with the command `cmd`, whose span starts at offset 0, and
/// the command is as long as the grammar lets it be: a name without an
/// argument is followed neither by a letter nor by an opening brace.
pub open spec fn is_leading_command(text: Seq<char>, cmd: CommandView) -> bool {
    &&& cmd.well_formed()
    &&& cmd.start == 0
    &&& cmd.fills_span()
    &&& cmd.end <= text.len()
    &&& text.subrange(0, cmd.end) == cmd.raw_text()
    &&& (cmd.argument is None && cmd.end < text.len()) ==> !is_letter(text[cmd.end])
        && text[cmd.end] != '{'
}

/// The command that `text` begins with, if it begins with one.
pub open spec fn leading_command(text: Seq<char>) -> Option<CommandView> {
    if exists|cmd: CommandView| is_leading_command(text, cmd) {
        Some(choose|cmd: CommandView| is_leading_command(text, cmd))
    } else {
        None
    }
}

/// What `is_leading_command` says of the single characters of `text`.
proof fn lemma_leading_command_shape(text: Seq<char>, cmd: CommandView)
    requires
        is_leading_command(text, cmd),
    ensures
        text.len() >= 2,
        text[0] == '\\',
        1 + cmd.name.len() <= text.len(),
        forall|i: int| 0 <= i < cmd.name.len() ==> text[1 + i] == #[trigger] cmd.name[i],
        forall|i: int| 1 <= i < 1 + cmd.name.len() ==> is_letter(#[trigger] text[i]),
        cmd.argument matches Some(argument) ==> {
            let n = cmd.name.len() as int;
            &&& cmd.end == n + argument.len() + 3
            &&& text[1 + n] == '{'
            &&& forall|i: int| 0 <= i < argument.len() ==> text[2 + n + i] == #[trigger] argument[i]
            &&& forall|i: int| 2 + n <= i < cmd.end - 1 ==> is_argument_char(#[trigger] text[i])
            &&& text[cmd.end - 1] == '}'
        },
        cmd.argument is None ==> {
            &&& cmd.end == 1 + cmd.name.len()
            &&& (cmd.end == text.len() || (!is_letter(text[cmd.end]) && text[cmd.end] != '{'))
        },
{
    let raw = cmd.raw_text();
    let head = text.subrange(0, cmd.end);
    let n = cmd.name.len() as int;
    assert(head[0] == raw[0]);
    assert forall|i: int| 0 <= i < n implies text[1 + i] == #[trigger] cmd.name[i] by {
        assert(head[1 + i] == raw[1 + i]);
    }
    assert forall|i: int| 1 <= i < 1 + n implies is_letter(#[trigger] text[i]) by {
        assert(text[1 + (i - 1)] == cmd.name[i - 1]);
    }
    match cmd.argument {
        Some(argument) => {
            let m = argument.len() as int;
            assert(head[1 + n] == raw[1 + n]);
            assert(head[cmd.end - 1] == raw[cmd.end - 1]);
            assert forall|i: int| 0 <= i < m implies text[2 + n + i] == #[trigger] argument[i] by {
                assert(head[2 + n + i] == raw[2 + n + i]);
            }
            assert forall|i: int| 2 + n <= i < cmd.end - 1 implies is_argument_char(
                #[trigger] text[i],
            ) by {
                assert(text[2 + n + (i - 2 - n)] == argument[i - 2 - n]);
            }
        },
        None => {},
    }
}

/// A text begins with at most one command.
pub proof fn lemma_leading_command_unique(text: Seq<char>, a: CommandView, b: CommandView)
    requires
        is_leading_command(text, a),
        is_leading_command(text, b),
    ensures
        a == b,
{
    lemma_leading_command_shape(text, a);
    lemma_leading_command_shape(text, b);
    let n = a.name.len() as int;
    let m = b.name.len() as int;
    if n < m {
        assert(is_letter(text[1 + n]));
    } else if m < n {
        assert(is_letter(text[1 + m]));
    }
    assert(a.name =~= b.name);
    match (a.argument, b.argument) {
        (Some(x), Some(y)) => {
            if x.len() < y.len() {
                assert(is_argument_char(text[2 + n + x.len()]));
            } else if y.len() < x.len() {
                assert(is_argument_char(text[2 + n + y.len()]));
            }
            assert(x =~= y);
        },
        _ => {},
    }
}

/// `leading_command` is `Some(cmd)` exactly when `text` begins with `cmd`.
pub proof fn lemma_leading_command_iff(text: Seq<char>, cmd: CommandView)
    ensures
        leading_command(text) == Some(cmd) <==> is_leading_command(text, cmd),
{
    if is_leading_command(text, cmd) {
        let chosen = choose|c: CommandView| is_leading_command(text, c);
        lemma_leading_command_unique(text, chosen, cmd);
    }
}

/// A text with an argument that is not closed on its line begins with no
/// command: behind a backslash, `name_len` letters and an opening brace, the
/// argument runs up to `stop`, where the text ends or a line breaks.
pub proof fn lemma_open_argument_is_no_command(text: Seq<char>, name_len: int, stop: int)
    requires
        1 <= name_len,
        name_len + 2 <= stop <= text.len(),
        text[0] == '\\',
        forall|i: int| 1 <= i <= name_len ==> is_letter(#[trigger] text[i]),
        text[name_len + 1] == '{',
        forall|i: int| name_len + 2 <= i < stop ==> is_argument_char(#[trigger] text[i]),
        stop == text.len() || text[stop] == '\n',
    ensures
        leading_command(text) is None,
{
    assert forall|cmd: CommandView| !is_leading_command(text, cmd) by {
        if is_leading_command(text, cmd) {
            lemma_leading_command_shape(text, cmd);
            let k = cmd.name.len() as int;
            if k < name_len {
                assert(is_letter(text[1 + k]));
            } else if k > name_len {
                assert(is_letter(text[name_len + 1]));
            }
            assert(cmd.argument is Some);
            let last = cmd.end - 1;
            if last < stop {
                assert(is_argument_char(text[last]));
            } else if last > stop {
                assert(is_argument_char(text[stop]));
            }
        }
    }
}

/// Parses the command that `text` begins with.
///
/// The span of the result starts at offset 0 and covers the command's source
/// text; what follows the command in `text` is not looked at beyond its
/// first character. Returns `None` when `text` does not begin with a
/// backslash and a name, or when an argument is opened and not closed on the
/// same line.
pub fn parse_command(text: &[char]) -> (parsed: Option<Command>)
    ensures
        match parsed {
            Some(cmd) => is_leading_command(text@, cmd@),
            None => forall|cmd: CommandView| !is_leading_command(text@, cmd),
        },
        leading_command(text@) == match parsed {
            Some(cmd) => Some(cmd@),
            None => None,
        },
{
    let n = text.len();
    if n == 0 || text[0] != '\\' {
        assert forall|cmd: CommandView| !is_leading_command(text@, cmd) by {
            if is_leading_command(text@, cmd) {
                lemma_leading_command_shape(text@, cmd);
            }
        }
        return None;
    }
    let mut name_end: usize = 1;
    while name_end < n && letter(text[name_end])
        invariant
            1 <= name_end <= n == text@.len(),
            forall|i: int| 1 <= i < name_end ==> is_letter(#[trigger] text@[i]),
        decreases n - name_end,
    {
        name_end += 1;
    }
    if name_end == 1 {
        assert forall|cmd: CommandView| !is_leading_command(text@, cmd) by {
            if is_leading_command(text@, cmd) {
                lemma_leading_command_shape(text@, cmd);
                assert(is_letter(text@[1]));
            }
        }
        return None;
    }
    let name = substring(text, 1, name_end);
    if name_end < n && text[name_end] == '{' {
        let mut close: usize = name_end + 1;
        while close < n && text[close] != '}' && text[close] != '\n'
            invariant
                name_end < close <= n == text@.len(),
                forall|i: int| name_end < i < close ==> is_argument_char(#[trigger] text@[i]),
            decreases n - close,
        {
            close += 1;
        }
        if close == n || text[close] == '\n' {
            proof {
                lemma_open_argument_is_no_command(text@, name_end - 1, close as int);
            }
            return None;
        }
        let argument = substring(text, name_end + 1, close);
        let cmd = Command {
            name,
            argument_text: Some(argument),
            span: Span { start: 0, end: close + 1 },
        };
        proof {
            assert(text@.subrange(0, close + 1) =~= cmd@.raw_text());
            lemma_leading_command_iff(text@, cmd@);
        }
        Some(cmd)
    } else {
        let cmd = Command { name, argument_text: None, span: Span { start: 0, end: name_end } };
        proof {
            assert(text@.subrange(0, name_end as int) =~= cmd@.raw_text());
            lemma_leading_command_iff(text@, cmd@);
        }
        Some(cmd)
    }
}

} // verus!
