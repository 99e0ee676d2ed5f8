//! What the command's words, its settings and its notes come to.
use vstd::prelude::*;

use crate::args::target_ok;
use crate::command::{
    ends_with, hey_answer, is_request, route, InboxCommand, InboxHey, InboxRoute, RouteText,
};
use crate::config::{
    inbox_owner, inbox_place, is_env, member, oracle_of_repo, processed_place, setting, text_of,
    two_above, InboxEnv, InboxPath, InboxRoot, PathRoot,
};
use crate::model::CliOutput;
use crate::text::{begins, cut_once, has_part, joined, trim, without_tail};
use crate::text_laws::{
    cut_is_at_the_first_mark, has_part_is_between, joining_keeps_every_text, tail_comes_off,
};
use crate::write::{
    is_write, no_inbox_text, note_of, written_answer, wrote_text, InboxWriteAction,
};

verus! {

/// Where the arguments lead is seen as it is.
pub proof fn routes_are_seen_whole(found: InboxRoute)
    ensures
        found matches InboxRoute::Print { text } ==> found@ == (RouteText::Print { text: text@ }),
        found matches InboxRoute::Run { command, from } ==> found@ == (RouteText::Run {
            command,
            from: from as nat,
        }),
{
}

/// Each word of the command leads to its part with all the other arguments, however many.
pub proof fn words_lead_to_their_parts(rest: Seq<Seq<char>>)
    ensures
        route(seq!["pending"@] + rest, false) == Ok::<RouteText, Seq<char>>(
            RouteText::Run { command: InboxCommand::Pending, from: 1 },
        ),
        route(seq!["queue"@] + rest, false) == Ok::<RouteText, Seq<char>>(
            RouteText::Run { command: InboxCommand::Pending, from: 1 },
        ),
        route(seq!["show-pending"@] + rest, false) == Ok::<RouteText, Seq<char>>(
            RouteText::Run { command: InboxCommand::ShowPending, from: 1 },
        ),
        route(seq!["pending-show"@] + rest, false) == Ok::<RouteText, Seq<char>>(
            RouteText::Run { command: InboxCommand::ShowPending, from: 1 },
        ),
        route(seq!["approve"@] + rest, false) == Ok::<RouteText, Seq<char>>(
            RouteText::Run { command: InboxCommand::Approve, from: 1 },
        ),
        route(seq!["reject"@] + rest, false) == Ok::<RouteText, Seq<char>>(
            RouteText::Run { command: InboxCommand::Reject, from: 1 },
        ),
        route(seq!["list"@] + rest, false) == Ok::<RouteText, Seq<char>>(
            RouteText::Run { command: InboxCommand::List, from: 1 },
        ),
        route(seq!["ls"@] + rest, false) == Ok::<RouteText, Seq<char>>(
            RouteText::Run { command: InboxCommand::List, from: 1 },
        ),
        route(seq!["read"@] + rest, false) == Ok::<RouteText, Seq<char>>(
            RouteText::Run { command: InboxCommand::Read, from: 1 },
        ),
        route(seq!["show"@] + rest, false) == Ok::<RouteText, Seq<char>>(
            RouteText::Run { command: InboxCommand::Show, from: 1 },
        ),
        route(seq!["write"@] + rest, false) == Ok::<RouteText, Seq<char>>(
            RouteText::Run { command: InboxCommand::Write, from: 1 },
        ),
        route(seq!["status"@] + rest, false) == Ok::<RouteText, Seq<char>>(
            RouteText::Run { command: InboxCommand::Status, from: 1 },
        ),
        route(seq!["drain"@] + rest, false) == Ok::<RouteText, Seq<char>>(
            RouteText::Run { command: InboxCommand::Drain, from: 1 },
        ),
{
    reveal_strlit("pending");
    reveal_strlit("queue");
    reveal_strlit("show-pending");
    reveal_strlit("pending-show");
    reveal_strlit("approve");
    reveal_strlit("reject");
    reveal_strlit("list");
    reveal_strlit("ls");
    reveal_strlit("read");
    reveal_strlit("show");
    reveal_strlit("write");
    reveal_strlit("status");
    reveal_strlit("drain");
    assert((seq!["pending"@] + rest)[0] == "pending"@ && (seq!["queue"@] + rest)[0] == "queue"@);
    assert((seq!["show-pending"@] + rest)[0] == "show-pending"@);
    assert((seq!["pending-show"@] + rest)[0] == "pending-show"@);
    assert((seq!["approve"@] + rest)[0] == "approve"@ && (seq!["reject"@] + rest)[0] == "reject"@);
    assert((seq!["list"@] + rest)[0] == "list"@ && (seq!["ls"@] + rest)[0] == "ls"@);
    assert((seq!["read"@] + rest)[0] == "read"@ && (seq!["show"@] + rest)[0] == "show"@);
    assert((seq!["write"@] + rest)[0] == "write"@ && (seq!["status"@] + rest)[0] == "status"@);
    assert((seq!["drain"@] + rest)[0] == "drain"@);
    assert("pending"@[0] == 'p' && "queue"@[0] == 'q' && "approve"@[0] == 'a' && "reject"@[0] == 'r');
    assert("show-pending"@[0] == 's' && "pending-show"@[0] == 'p' && "list"@[0] == 'l');
    assert("ls"@[0] == 'l' && "read"@[0] == 'r' && "show"@[0] == 's' && "write"@[0] == 'w');
    assert("status"@[0] == 's' && "drain"@[0] == 'd');
    assert("pending"@.len() == 7 && "pending-show"@.len() == 12 && "show-pending"@.len() == 12);
    assert("reject"@.len() == 6 && "read"@.len() == 4 && "show"@.len() == 4 && "status"@.len() == 6);
    assert("list"@.len() == 4 && "ls"@.len() == 2);
}

/// A word that leads nowhere and is no flag is answered with itself; where help is wanted, it
/// is given whatever the arguments are.
pub proof fn other_words_lead_nowhere(word: Seq<char>, rest: Seq<Seq<char>>)
    requires
        !begins(word, '-'),
        word != "pending"@ && word != "queue"@ && word != "show-pending"@ && word
            != "pending-show"@ && word != "approve"@ && word != "reject"@ && word != "list"@
            && word != "ls"@ && word != "read"@ && word != "show"@ && word != "write"@ && word
            != "status"@ && word != "drain"@,
    ensures
        route(seq![word] + rest, false) == Err::<RouteText, Seq<char>>(
            "inbox: unknown subcommand "@ + word,
        ),
        route(rest, true) == Ok::<RouteText, Seq<char>>(
            RouteText::Print {
                text: "usage: "@
                    + "maw inbox [--unread] [--from <peer>] [--last N] | status [oracle-name] [--json] [--all] | drain [oracle-name] --safe [--max N] [--older-than-hours H] [--json] [--dry-run] | read <id> | show [N] | write <msg> | pending | approve <id> | reject <id> | show-pending <id>"@
                    + "\n"@,
            },
        ),
{
    assert((seq![word] + rest)[0] == word);
}

/// A message was handed on exactly where the code is zero; else the error holds the whole of
/// what was said on the error output, without the white space around it, or of what was said
/// on the other one where nothing was.
pub proof fn failed_sends_say_why(output: CliOutput)
    ensures
        output.code == 0 <==> hey_answer(output) is Ok,
        output.code != 0 && trim(output.stderr@).len() > 0 ==> hey_answer(output) == Err::<
            (),
            Seq<char>,
        >("inbox: maw hey failed: "@ + trim(output.stderr@)),
        output.code != 0 && trim(output.stderr@).len() == 0 ==> hey_answer(output) == Err::<
            (),
            Seq<char>,
        >("inbox: maw hey failed: "@ + trim(output.stdout@)),
{
}

/// A text that holds anything is taken whole as a setting; an empty one and none at all leave
/// the fallback.
pub proof fn settings_are_taken_whole(text: Seq<char>, fallback: Seq<char>)
    ensures
        text.len() > 0 ==> setting(Some(text), fallback) == text,
        text.len() == 0 ==> setting(Some(text), fallback) == fallback,
        setting(None, fallback) == fallback,
{
}

/// The string under a key is found exactly where there is one.
pub proof fn members_are_found(members: Map<Seq<char>, Seq<char>>, key: Seq<char>)
    ensures
        members.dom().contains(key) ==> member(members, key) == Some(members[key]),
        !members.dom().contains(key) ==> member(members, key) is None,
{
}

/// A text that may be missing is seen as it is.
pub proof fn texts_are_seen_whole(text: &str)
    ensures
        text_of(Some(text)) == Some(text@),
        text_of(None) is None,
{
}

/// A path is seen as it is: where it starts, and every name that leads on.
pub proof fn paths_are_seen_whole(path: InboxPath)
    ensures
        path.root is ConfigDir ==> path@.0 is ConfigDir,
        path.root is StateDir ==> path@.0 is StateDir,
        path.root is WorkingDir ==> path@.0 is WorkingDir,
        path.root matches InboxRoot::Given(given) ==> path@.0 == PathRoot::Given(given@),
        path@.1.len() == path.names@.len(),
        forall|i: int| 0 <= i < path.names@.len() ==> #[trigger] path@.1[i] == path.names@[i]@,
{
}

/// The inbox lies in `inbox` below the configured directory, taken whole, and without one in
/// `ψ/inbox` or `psi/inbox` below the working directory.
pub proof fn the_inbox_lies_where_it_is_told(psi: Seq<char>)
    ensures
        inbox_place(Some(psi), true) == (PathRoot::Given(psi), seq!["inbox"@]),
        inbox_place(Some(psi), false) == (PathRoot::Given(psi), seq!["inbox"@]),
        inbox_place(None, true) == (PathRoot::WorkingDir, seq!["ψ"@, "inbox"@]),
        inbox_place(None, false) == (PathRoot::WorkingDir, seq!["psi"@, "inbox"@]),
{
}

/// Two more names below a directory lead two down from it: the directory's own name is found
/// there, be it a name on the way or that of the root.
pub proof fn two_above_is_two_up(
    names: Seq<Seq<char>>,
    name: Seq<char>,
    a: Seq<char>,
    b: Seq<char>,
    root_name: Option<Seq<char>>,
)
    ensures
        two_above(names.push(name).push(a).push(b), root_name) == Some(name),
        two_above(seq![a, b], root_name) == root_name,
        two_above(seq![a], root_name) is None,
        two_above(Seq::empty(), root_name) is None,
{
}

/// A repository's name is the oracle's, whole, where it holds no mark of a work tree and does
/// not end with `-oracle`; one `-oracle` at its end comes off, and so does the first mark of a
/// work tree with all that follows it.
pub proof fn oracles_are_named_by_their_repositories(name: Seq<char>, tree: Seq<char>)
    requires
        !has_part(name, ".wt-"@),
    ensures
        name.len() > 0 && (forall|front: Seq<char>| name != #[trigger] (front + "-oracle"@))
            ==> oracle_of_repo(name) == Some(name),
        forall|front: Seq<char>|
            name == #[trigger] (front + "-oracle"@) && front.len() > 0 ==> oracle_of_repo(name)
                == Some(front),
        forall|front: Seq<char>|
            name == #[trigger] (front + "-oracle"@) && front.len() == 0 ==> oracle_of_repo(name)
                is None,
        name.len() == 0 ==> oracle_of_repo(name) is None,
        !has_part(name + ".wt"@, ".wt-"@) ==> oracle_of_repo(name + ".wt-"@ + tree)
            == oracle_of_repo(name),
{
    reveal_strlit(".wt-");
    reveal_strlit(".wt");
    reveal_strlit("-oracle");
    cut_is_at_the_first_mark(name, ".wt-"@);
    has_part_is_between(name, ".wt-"@);
    assert(cut_once(name, ".wt-"@) is None);
    tail_comes_off(Seq::empty(), "-oracle"@, name);
    assert forall|front: Seq<char>| name == #[trigger] (front + "-oracle"@) implies without_tail(
        name,
        "-oracle"@,
    ) == front by {
        tail_comes_off(front, "-oracle"@, name);
    }
    let whole = name + ".wt-"@ + tree;
    cut_is_at_the_first_mark(whole, ".wt-"@);
    assert(whole == name + ".wt-"@ + tree);
    let parts = cut_once(whole, ".wt-"@)->0;
    assert(whole == parts.0 + ".wt-"@ + parts.1);
    if parts.0.len() < name.len() {
        let at = parts.0.len() as int;
        let longer = name + ".wt"@;
        assert(whole.subrange(at, at + 4) =~= ".wt-"@);
        if at + 4 <= longer.len() {
            assert(longer.subrange(at, at + 4) =~= whole.subrange(at, at + 4));
            has_part_is_between(longer, ".wt-"@);
            assert(longer =~= longer.take(at) + ".wt-"@ + longer.skip(at + 4));
        }
        assert(has_part(longer, ".wt-"@));
    } else {
        assert(parts.0 =~= whole.take(name.len() as int));
        assert(name =~= whole.take(name.len() as int));
    }
}

/// The inbox belongs to whom its repository names, over the setting; to whom the setting names
/// where the place is configured or the repository names none; and else to `local`.
pub proof fn owners_are_taken_whole(
    psi: Seq<char>,
    oracle: Option<Seq<char>>,
    repo: Option<Seq<char>>,
    name: Seq<char>,
)
    ensures
        inbox_owner(Some(psi), oracle, repo) == setting(oracle, "local"@),
        inbox_owner(None, oracle, None) == setting(oracle, "local"@),
        oracle_of_repo(name) is None ==> inbox_owner(None, oracle, Some(name)) == setting(
            oracle,
            "local"@,
        ),
        oracle_of_repo(name) matches Some(owner) ==> inbox_owner(None, oracle, Some(name)) == owner,
{
}

/// The surroundings hold the inbox's place and owner, the node that the setting names or `cli`,
/// the folder `pending` below the configuration, and the directory of the state itself.
pub proof fn surroundings_are_put_together(
    env: InboxEnv,
    psi: Option<Seq<char>>,
    oracle: Option<Seq<char>>,
    node: Option<Seq<char>>,
    unicode_exists: bool,
    working_name: Option<Seq<char>>,
)
    requires
        is_env(env, psi, oracle, node, unicode_exists, working_name),
    ensures
        env.inbox_dir@ == inbox_place(psi, unicode_exists),
        psi is Some ==> env.oracle@ == setting(oracle, "local"@),
        psi is None ==> env.oracle@ == inbox_owner(None, oracle, working_name),
        env.node@ == setting(node, "cli"@),
        env.pending_dir@ == (PathRoot::ConfigDir, seq!["pending"@]),
        env.state_dir@ == (PathRoot::StateDir, Seq::<Seq<char>>::empty()),
{
}

/// A day's archive lies in a folder of that day's whole name below `processed`, which lies
/// directly below the inbox.
pub proof fn archives_lie_below_the_inbox(env: InboxEnv, day: Seq<char>)
    ensures
        processed_place(env, day).0 == env.inbox_dir@.0,
        processed_place(env, day).1 == env.inbox_dir@.1 + seq!["processed"@, day],
{
    assert(env.inbox_dir@.1.push("processed"@).push(day) =~= env.inbox_dir@.1
        + seq!["processed"@, day]);
}

/// A note holds every word that was written, in order, with one space between each two: one
/// more word comes behind a space behind all the others.
pub proof fn a_note_holds_every_word(note: Seq<Seq<char>>, word: Seq<char>)
    requires
        note.len() > 0,
        !begins(note[0], '-'),
    ensures
        !begins(word, '-') ==> note_of(seq![word]) == Ok::<Seq<char>, Seq<char>>(word),
        note_of(note) is Ok,
        note_of(note.push(word)) == Ok::<Seq<char>, Seq<char>>(note_of(note)->Ok_0 + " "@ + word),
        note_of(seq!["--"@] + note) == note_of(note),
{
    reveal_strlit("--");
    joining_keeps_every_text(note, word, " "@);
    crate::write::separator_is_optional(note);
    assert(note.push(word)[0] == note[0]);
    assert(begins("--"@, '-'));
}

/// A note that begins with `-` is refused unless a `--` stands before it, however long it is,
/// and no words are no note.
pub proof fn dashes_need_a_separator(note: Seq<Seq<char>>)
    ensures
        note.len() > 0 && begins(note[0], '-') && note[0] != "--"@ ==> note_of(note) == Err::<
            Seq<char>,
            Seq<char>,
        >("inbox: write message starting with '-' requires -- separator"@),
        note.len() > 0 ==> note_of(seq!["--"@] + note) == Ok::<Seq<char>, Seq<char>>(
            joined(note, " "@),
        ),
        note_of(Seq::empty()) == Err::<Seq<char>, Seq<char>>("usage: maw inbox write <msg>"@),
        note_of(seq!["--"@]) == Err::<Seq<char>, Seq<char>>("usage: maw inbox write <msg>"@),
{
    if note.len() > 0 {
        crate::write::separator_takes_everything(note);
    }
}

/// What is printed of a note names the whole of the file it was written to, or of the directory
/// that is missing.
pub proof fn notes_are_answered_with_their_place(name: Seq<char>)
    ensures
        wrote_text(name) == "\u{001b}[32m✓\u{001b}[0m wrote \u{001b}[33m"@ + name
            + "\u{001b}[0m\n"@,
        no_inbox_text(name) == "\u{001b}[31merror\u{001b}[0m: inbox not found: "@ + name + "\n"@,
{
}

/// A command that went well prints its whole text and nothing else, with code 0; one that did
/// not prints its whole error and a line end to the error output, and nothing else, with code 1.
pub proof fn commands_print_all_they_have(output: CliOutput, text: Seq<char>)
    ensures
        ends_with(output, Ok(text)) ==> output.code == 0 && output.stdout@ == text
            && output.stderr@.len() == 0,
        ends_with(output, Err(text)) ==> output.code == 1 && output.stdout@.len() == 0
            && output.stderr@ == text + "\n"@,
{
}

/// A message is handed on whole, whatever it holds and however long it is, to the peer that was
/// asked for; nothing is handed on where the query may not name one.
pub proof fn messages_are_handed_on_whole(
    result: Result<InboxHey, String>,
    query: Seq<char>,
    message: Seq<char>,
    acl_bypass: bool,
)
    requires
        is_request(result, query, message, acl_bypass),
    ensures
        target_ok(query) ==> (result matches Ok(hey) && hey.query@ == query && hey.message@
            == message && hey.acl_bypass == acl_bypass),
        !target_ok(query) ==> (result matches Err(error) && error@ == "inbox: invalid query"@),
{
    reveal_strlit("inbox: invalid ");
    reveal_strlit("query");
    reveal_strlit("inbox: invalid query");
    assert("inbox: invalid "@ + "query"@ =~= "inbox: invalid query"@);
}

/// Words behind a `--` are written as they are joined, from the node to itself, where the inbox
/// is there; where it is not, nothing is written; and what is wrong with the words decides
/// before either.
pub proof fn notes_are_written_whole(
    result: Result<InboxWriteAction, String>,
    note: Seq<Seq<char>>,
    argv: Seq<Seq<char>>,
    node: Seq<char>,
    dir_exists: bool,
    shown: Seq<char>,
)
    requires
        note.len() > 0,
    ensures
        is_write(result, seq!["--"@] + note, node, true, shown) ==> (
        result matches Ok(InboxWriteAction::WriteNote { from, to, note: kept }) && from@ == node
            && to@ == node && kept@ == joined(note, " "@)),
        is_write(result, seq!["--"@] + note, node, false, shown) ==> (
        result matches Ok(InboxWriteAction::Print { text }) && text@
            == "\u{001b}[31merror\u{001b}[0m: inbox not found: "@ + shown + "\n"@),
        is_write(result, argv, node, dir_exists, shown) ==> (note_of(argv) matches Err(error) ==> (
        result matches Err(told) && told@ == error)),
        is_write(result, argv, node, true, shown) ==> (note_of(argv) matches Ok(whole) ==> (
        result matches Ok(InboxWriteAction::WriteNote { note: kept, .. }) && kept@ == whole)),
{
    crate::write::separator_takes_everything(note);
}

/// A note that was written is answered with the whole name of its file, and one that was not
/// with the whole error.
pub proof fn written_notes_are_named(name: Seq<char>)
    ensures
        written_answer(Ok(name)) == Ok::<Seq<char>, Seq<char>>(
            "\u{001b}[32m✓\u{001b}[0m wrote \u{001b}[33m"@ + name + "\u{001b}[0m\n"@,
        ),
        written_answer(Err(name)) == Err::<Seq<char>, Seq<char>>(name),
{
}

} // verus!
