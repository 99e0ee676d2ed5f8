//! Leaving a note in the inbox.
use vstd::prelude::*;

use crate::config::InboxEnv;
use crate::text::{begins, begins_with, join_texts, joined, outcome, same_text, words};

verus! {

/// The note that the arguments give: all of them with spaces between, without a `--` that
/// stands first. A note that begins with `-` needs that `--` before it.
pub open spec fn note_of(argv: Seq<Seq<char>>) -> Result<Seq<char>, Seq<char>> {
    if argv.len() > 0 && argv[0] != "--"@ && begins(argv[0], '-') {
        Err("inbox: write message starting with '-' requires -- separator"@)
    } else {
        let note = if argv.len() > 0 && argv[0] == "--"@ {
            argv.drop_first()
        } else {
            argv
        };
        if note.len() == 0 {
            Err("usage: maw inbox write <msg>"@)
        } else {
            Ok(joined(note, " "@))
        }
    }
}

/// Behind a `--` every argument is taken as it is.
pub proof fn separator_takes_everything(note: Seq<Seq<char>>)
    requires
        note.len() > 0,
    ensures
        note_of(seq!["--"@] + note) == Ok::<Seq<char>, Seq<char>>(joined(note, " "@)),
{
    let argv = seq!["--"@] + note;
    assert(argv.drop_first() =~= note);
}

/// A note that does not begin with `-` needs no `--`, and one makes no difference to it.
pub proof fn separator_is_optional(note: Seq<Seq<char>>)
    requires
        note.len() > 0,
        !begins(note[0], '-'),
    ensures
        note_of(note) == note_of(seq!["--"@] + note),
{
    reveal_strlit("--");
    assert(begins("--"@, '-'));
    separator_takes_everything(note);
}

/// What is to be done about a note.
#[derive(Debug, PartialEq, Eq)]
pub enum InboxWriteAction {
    /// Print this: there is no inbox to write to.
    Print { text: String },
    /// Write this note, from and to these nodes.
    WriteNote { from: String, to: String, note: String },
}

/// What is printed where there is no inbox.
pub open spec fn no_inbox_text(inbox_dir: Seq<char>) -> Seq<char> {
    "\u{001b}[31merror\u{001b}[0m: inbox not found: "@ + inbox_dir + "\n"@
}

/// What is printed once a note is written.
pub open spec fn wrote_text(filename: Seq<char>) -> Seq<char> {
    "\u{001b}[32m✓\u{001b}[0m wrote \u{001b}[33m"@ + filename + "\u{001b}[0m\n"@
}

/// The note that the arguments give.
pub fn inbox_parse_write_note(argv: &[String]) -> (result: Result<String, String>)
    ensures
        outcome(result) == note_of(words(argv@)),
{
    let ghost all = words(argv@);
    let mut from: usize = 0;
    if argv.len() > 0 {
        assert(argv@[0]@ == all[0]);
        if same_text(argv[0].as_str(), "--") {
            from = 1;
        } else if begins_with(argv[0].as_str(), '-') {
            return Err("inbox: write message starting with '-' requires -- separator".to_owned());
        }
    }
    if from == argv.len() {
        return Err("usage: maw inbox write <msg>".to_owned());
    }
    let (_, note) = argv.split_at(from);
    assert(from == 1 ==> words(note@) =~= all.drop_first());
    assert(from == 0 ==> words(note@) =~= all);
    Ok(join_texts(note, " "))
}

/// Whether the result is what a note comes to.
pub open spec fn is_write(
    result: Result<InboxWriteAction, String>,
    argv: Seq<Seq<char>>,
    node: Seq<char>,
    dir_exists: bool,
    shown: Seq<char>,
) -> bool {
    match note_of(argv) {
        Err(error) => result matches Err(told) && told@ == error,
        Ok(note) => if dir_exists {
            result matches Ok(InboxWriteAction::WriteNote { from, to, note: kept }) && from@ == node
                && to@ == node && kept@ == note
        } else {
            result matches Ok(InboxWriteAction::Print { text }) && text@ == no_inbox_text(shown)
        },
    }
}

/// Decides what a note comes to. `dir_exists` says whether the inbox's directory is there,
/// `shown` how its path is shown.
pub fn inbox_run_write(argv: &[String], env: &InboxEnv, dir_exists: bool, shown: &str) -> (result:
    Result<InboxWriteAction, String>)
    ensures
        is_write(result, words(argv@), env.node@, dir_exists, shown@),
{
    let note = inbox_parse_write_note(argv)?;
    if !dir_exists {
        let text = "\u{001b}[31merror\u{001b}[0m: inbox not found: ".to_owned().concat(
            shown,
        ).concat("\n");
        return Ok(InboxWriteAction::Print { text });
    }
    Ok(InboxWriteAction::WriteNote { from: env.node.clone(), to: env.node.clone(), note })
}

/// What writing a note is answered.
pub open spec fn written_answer(written: Result<Seq<char>, Seq<char>>) -> Result<
    Seq<char>,
    Seq<char>,
> {
    match written {
        Ok(filename) => Ok(wrote_text(filename)),
        Err(error) => Err(error),
    }
}

/// Prints what came of writing a note.
pub fn inbox_finish_write(written: Result<String, String>) -> (result: Result<String, String>)
    ensures
        outcome(result) == written_answer(outcome(written)),
{
    let filename = written?;
    Ok(
        "\u{001b}[32m✓\u{001b}[0m wrote \u{001b}[33m".to_owned().concat(
            filename.as_str(),
        ).concat("\u{001b}[0m\n"),
    )
}

} // verus!
