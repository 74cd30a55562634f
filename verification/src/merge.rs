//! The classifier: whether a new reference key can join an existing command,
//! and the text of the command once it has.

use vstd::prelude::*;
use crate::command::{Command, CommandView};
use crate::text::{append_range, chars_of, string_of};

verus! {

/// The name of the citation command, the one command that takes more keys.
pub open spec fn citation_name() -> Seq<char> {
    seq!['c', 'i', 't', 'e']
}

/// `citation` with `key` added to its list: the closing brace is dropped,
/// then a comma, the key and a closing brace are appended. `None` when
/// `citation` does not end with a closing brace.
pub open spec fn extended_citation(citation: Seq<char>, key: Seq<char>) -> Option<Seq<char>> {
    if citation.len() > 0 && citation.last() == '}' {
        Some(citation.drop_last() + seq![','] + key + seq!['}'])
    } else {
        None
    }
}

/// A command takes more keys exactly when it is a citation whose source text
/// ends with a closing brace.
pub open spec fn is_mergeable(cmd: CommandView) -> bool {
    cmd.name == citation_name() && cmd.raw_text().last() == '}'
}

/// The source text of `cmd` with `key` merged in, or `None` when `cmd` takes
/// no more keys.
pub open spec fn merged_text(cmd: CommandView, key: Seq<char>) -> Option<Seq<char>> {
    if cmd.name == citation_name() {
        extended_citation(cmd.raw_text(), key)
    } else {
        None
    }
}

/// Whether a command takes a new key, and its replacement text if it does.
#[derive(Clone, Debug, PartialEq, Eq)]
pub enum MergeOutcome {
    /// The full replacement for the command's span.
    Merged(String),
    /// The command takes no more keys; a new command has to be inserted.
    NoMerge,
}

impl View for MergeOutcome {
    type V = Option<Seq<char>>;

    open spec fn view(&self) -> Option<Seq<char>> {
        match self {
            MergeOutcome::Merged(text) => Some(text@),
            MergeOutcome::NoMerge => None,
        }
    }
}

/// A merge happens exactly for a citation with an argument, and it appends
/// the key to the argument behind a comma.
pub proof fn lemma_merged_text(cmd: CommandView, key: Seq<char>)
    ensures
        merged_text(cmd, key) is Some <==> is_mergeable(cmd),
        is_mergeable(cmd) <==> cmd.name == citation_name() && cmd.argument is Some,
        cmd.name == citation_name() && cmd.argument is Some ==> merged_text(cmd, key) == Some(
            (CommandView { argument: Some(cmd.argument->0 + seq![','] + key), ..cmd }).raw_text(),
        ),
{
    match cmd.argument {
        Some(argument) => {
            let longer = CommandView { argument: Some(argument + seq![','] + key), ..cmd };
            assert(cmd.raw_text().drop_last() + seq![','] + key + seq!['}'] =~= longer.raw_text());
        },
        None => {
            if cmd.name == citation_name() {
                assert(cmd.raw_text().last() == 'e');
            }
        },
    }
}

/// Adds `new_key` to the key list of `citation`.
///
/// Returns `citation` without its last character, followed by a comma, the
/// key and a closing brace, when `citation` ends with a closing brace, and
/// `None` otherwise.
pub fn extend_citation(citation: &str, new_key: &str) -> (extended: Option<String>)
    ensures
        match extended {
            Some(text) => extended_citation(citation@, new_key@) == Some(text@),
            None => extended_citation(citation@, new_key@) is None,
        },
{
    let old = chars_of(citation);
    let n = old.len();
    if n == 0 || old[n - 1] != '}' {
        return None;
    }
    let key = chars_of(new_key);
    let mut longer: Vec<char> = Vec::new();
    append_range(&mut longer, old.as_slice(), 0, n - 1);
    longer.push(',');
    append_range(&mut longer, key.as_slice(), 0, key.len());
    longer.push('}');
    assert(longer@ =~= citation@.drop_last() + seq![','] + new_key@ + seq!['}']);
    Some(string_of(longer.as_slice()))
}

/// Whether `name` is the name of the citation command.
pub fn is_citation_name(name: &str) -> (b: bool)
    ensures
        b == (name@ == citation_name()),
{
    let name = chars_of(name);
    let b = name.len() == 4 && name[0] == 'c' && name[1] == 'i' && name[2] == 't' && name[3]
        == 'e';
    assert(b == (name@ =~= citation_name()));
    b
}

/// Decides whether `new_key` can join `command`.
///
/// Returns `Merged` with the full replacement text when `command` is a
/// citation whose source text ends with a closing brace, and `NoMerge`
/// otherwise.
pub fn classify_merge(command: &Command, new_key: &str) -> (outcome: MergeOutcome)
    ensures
        outcome@ == merged_text(command@, new_key@),
        outcome is Merged <==> is_mergeable(command@),
{
    proof {
        lemma_merged_text(command@, new_key@);
    }
    if !is_citation_name(command.name.as_str()) {
        return MergeOutcome::NoMerge;
    }
    let raw = command.raw_text();
    match extend_citation(raw.as_str(), new_key) {
        Some(text) => MergeOutcome::Merged(text),
        None => MergeOutcome::NoMerge,
    }
}

} // verus!
