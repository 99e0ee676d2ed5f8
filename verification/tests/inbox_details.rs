use maw_inbox::archive::{
    inbox_archive_day, inbox_archive_folder, inbox_archive_message, inbox_latest_archive_mtime_ms,
    inbox_scan_archive_day, inbox_unique_archive_path, InboxArchiveName, InboxMove,
};
use maw_inbox::args::{
    inbox_hours_fit, inbox_parse_hours_seconds, inbox_parse_usize, inbox_required_value,
    inbox_single_id_arg, inbox_validate_lookup_arg, inbox_validate_target_arg,
};
use maw_inbox::command::{
    inbox_run_at, run_inbox_command, InboxCommand, InboxRoute, InboxSystemSender,
    INBOX_ARCHIVE_RED_SECONDS, INBOX_OLDEST_RED_SECONDS, INBOX_PENDING_TTL_SECONDS,
    INBOX_UNREAD_RED_THRESHOLD,
};
use maw_inbox::config::{
    inbox_config_string, inbox_env_from_config, inbox_env_from_settings, inbox_oracle_from_dir,
    inbox_owner_from, inbox_place_from, inbox_repo_of, inbox_resolve_dir, inbox_resolve_oracle,
    inbox_setting, inbox_state_pending_dir, InboxEnv, InboxPath, InboxRoot,
};
use maw_inbox::drain::{
    inbox_drain_candidates, inbox_first_reason, inbox_safe_drain_reason,
    inbox_safe_reason_patterns, inbox_select_candidates,
};
use maw_inbox::drain_args::{
    inbox_confirm_drain, inbox_drain_args_fit, inbox_parse_drain_arg, inbox_parse_drain_args,
    inbox_previews_only, inbox_set_drain_oracle, InboxDrainOptions,
};
use maw_inbox::drain_report::{
    inbox_begin_drain, inbox_format_drain_result, inbox_json_pretty, inbox_run_drain,
};
use maw_inbox::drain_run::{
    inbox_drain_item, inbox_drain_local, inbox_drain_result, InboxDrainAction, InboxDrainEvent,
    InboxDrainItem, InboxDrainResult,
};
use maw_inbox::list::{inbox_list_rows, inbox_parse_list_args, InboxListOptions};
use maw_inbox::mark_read::{
    inbox_begin_mark_read, inbox_run_mark_read, InboxReadAction, InboxReadEvent, InboxReadState,
};
use maw_inbox::model::{CliOutput, InboxMessage};
use maw_inbox::show::{inbox_render_show, inbox_run_show, inbox_show_target};
use maw_inbox::table::{inbox_render_list, inbox_run_list};
use maw_inbox::write::{
    inbox_finish_write, inbox_parse_write_note, inbox_run_write, InboxWriteAction,
};

const HOUR: u64 = 3600;
const DRAIN_USAGE: &str = "usage: maw inbox drain [oracle-name] --safe [--max N] [--older-than-hours H] [--json] [--dry-run]";
const NO_NUMBER: &str = "--older-than-hours must be a non-negative number";

fn strings(values: &[&str]) -> Vec<String> {
    values.iter().map(|value| (*value).to_owned()).collect()
}

fn message(filename: &str, from: &str, read: bool, sent: u64, body: &str) -> InboxMessage {
    InboxMessage {
        id: format!("id-of-{filename}"),
        filename: filename.to_owned(),
        path: format!("in/{filename}"),
        from: from.to_owned(),
        timestamp_ms: sent,
        read,
        body: body.to_owned(),
    }
}

fn report(filename: &str, sent: u64) -> InboxMessage {
    message(filename, "alice", false, sent, "[alice] verified")
}

fn cut(text: &str, width: usize) -> String {
    text.chars().take(width).collect()
}

fn pad(text: &str, width: usize) -> String {
    format!("{text:<width$}")
}

fn ago(sent: u64, now: u64) -> String {
    format!("{} ago", now - sent)
}

fn age(sent: u64, now: u64) -> u64 {
    (now - sent) / 1000
}

fn label(moment: u64) -> String {
    format!("at {moment}")
}

fn span(seconds: Option<u64>) -> String {
    match seconds {
        Some(seconds) => format!("{}h", seconds / HOUR),
        None => "never".to_owned(),
    }
}

fn err<T>(text: &str) -> Result<T, String> {
    Err(text.to_owned())
}

fn env() -> InboxEnv {
    InboxEnv {
        inbox_dir: InboxPath::at(InboxRoot::WorkingDir).join("psi").join("inbox"),
        pending_dir: InboxPath::at(InboxRoot::ConfigDir).join("pending"),
        state_dir: InboxPath::at(InboxRoot::StateDir),
        oracle: "nova".to_owned(),
        node: "mac-mini".to_owned(),
    }
}

#[test]
fn lookups_are_guarded() {
    for value in ["", "-x", "a/b", "..", "a..b", "a\u{0}b", "a\u{1f}", "\u{7f}", "a\nb"] {
        assert_eq!(inbox_validate_lookup_arg(value, "id"), err("inbox: invalid id"), "{value:?}");
    }
    for value in ["1", "a", "a.b.c", " a ", "ψ", "a-b", "a\u{80}"] {
        assert_eq!(inbox_validate_lookup_arg(value, "id"), Ok(()), "{value:?}");
    }
}

#[test]
fn targets_are_guarded() {
    for value in ["", " ", " a", "a ", "-a", "a/b", "a\u{0}b", "a\u{7f}b", "a\u{3000}"] {
        assert_eq!(inbox_validate_target_arg(value, "from"), err("inbox: invalid from"), "{value:?}");
    }
    for value in ["a", "a b", "..", "ψ", "a-", "a\u{200b}"] {
        assert_eq!(inbox_validate_target_arg(value, "from"), Ok(()), "{value:?}");
    }
}

#[test]
fn white_space_is_unicodes() {
    for code in 0..=0x10FFFF_u32 {
        if let Some(c) = char::from_u32(code) {
            let inner = !c.is_ascii_control() && c != '/' && !c.is_whitespace();
            assert_eq!(inbox_validate_target_arg(&format!("a{c}"), "x").is_ok(), inner, "{code:x}");
            assert_eq!(
                inbox_validate_target_arg(&format!("{c}a"), "x").is_ok(),
                inner && c != '-',
                "{code:x}"
            );
        }
    }
}

#[test]
fn flags_need_their_values() {
    let argv = strings(&["--last", "3", "--from", "-x", "--from"]);
    assert_eq!(inbox_required_value(&argv, 0, "--last"), Ok("3"));
    assert_eq!(
        inbox_required_value(&argv, 2, "--from"),
        err("inbox: --from value must not start with '-'")
    );
    assert_eq!(inbox_required_value(&argv, 4, "--from"), err("inbox: missing --from value"));
    assert_eq!(inbox_required_value(&argv, 40, "--from"), err("inbox: missing --from value"));
}

#[test]
fn one_argument_names_a_message() {
    assert_eq!(inbox_single_id_arg(&strings(&["ci"]), "how"), Ok("ci"));
    assert_eq!(inbox_single_id_arg(&[], "how"), err("how"));
    assert_eq!(inbox_single_id_arg(&strings(&["a", "b"]), "how"), err("how"));
    assert_eq!(inbox_single_id_arg(&strings(&["-a"]), "how"), err("inbox: invalid id"));
}

#[test]
fn counts_are_read() {
    assert_eq!(inbox_parse_usize("0", "--max"), Ok(0));
    assert_eq!(inbox_parse_usize("007", "--max"), Ok(7));
    assert_eq!(inbox_parse_usize("+12", "--max"), Ok(12));
    assert_eq!(inbox_parse_usize(&format!("{}", usize::MAX), "--max"), Ok(usize::MAX));
    for value in ["", "-1", "+", "1.5", " 1", "x", "٣", "18446744073709551616", "++1"] {
        assert_eq!(
            inbox_parse_usize(value, "--max"),
            err("--max must be a non-negative integer"),
            "{value:?}"
        );
    }
}

#[test]
fn hours_are_read() {
    let cases = [
        ("0", 0),
        ("4", 14_400),
        ("+2", 7_200),
        ("1.", 3_600),
        ("0.5", 1_800),
        ("1.25", 4_500),
        ("0.0001", 0),
        ("0.000277", 0),
        ("0.000278", 1),
        ("1.9999999", 7_199),
        ("0.12345699999999999999999999", 444),
        ("5124095576030431", 18_446_744_073_709_551_600),
        ("5124095576030431.004", 18_446_744_073_709_551_614),
    ];
    for (value, seconds) in cases {
        assert!(inbox_hours_fit(value), "{value}");
        assert_eq!(inbox_parse_hours_seconds(value), Ok(seconds), "{value}");
    }
    for value in ["", "-1", ".5", "x", "1.x", "1.2.3", "1.-5", "18446744073709551616", "1.+5", " 1"] {
        assert!(inbox_hours_fit(value), "{value}");
        assert_eq!(inbox_parse_hours_seconds(value), err(NO_NUMBER), "{value}");
    }
    for value in ["5124095576030432", "18446744073709551615", "5124095576030432.x"] {
        assert!(inbox_hours_fit(value), "{value}");
        assert_eq!(inbox_parse_hours_seconds(value), err("--older-than-hours is too large"), "{value}");
    }
    assert!(!inbox_hours_fit("5124095576030431.9"));
    assert!(!inbox_hours_fit("5124095576030431.005"));
}

#[test]
fn list_flags_are_read() {
    let options = inbox_parse_list_args(&strings(&["--unread", "--from", "bob", "--last=3"]));
    assert_eq!(
        options,
        Ok(InboxListOptions { unread: true, from: Some("bob".to_owned()), last: Some(3) })
    );
    assert_eq!(inbox_parse_list_args(&[]), Ok(InboxListOptions::default()));
    let again = inbox_parse_list_args(&strings(&["--last", "1", "--last", "2"])).unwrap();
    assert_eq!(again.last, Some(2));
    let heads = inbox_parse_list_args(&strings(&["--from=--from=x"])).unwrap();
    assert_eq!(heads.from, Some("x".to_owned()));
}

#[test]
fn list_flags_are_refused() {
    let cases = [
        (&["--from"][..], "inbox: missing --from value"),
        (&["--from", "-x"][..], "inbox: --from value must not start with '-'"),
        (&["--from", " "][..], "inbox: invalid from"),
        (&["--from="][..], "inbox: invalid from"),
        (&["--from=-x"][..], "inbox: invalid from"),
        (&["--last"][..], "inbox: missing --last value"),
        (&["--last", "x"][..], "--last must be a non-negative integer"),
        (&["--last="][..], "--last must be a non-negative integer"),
        (&["--last=-1"][..], "--last must be a non-negative integer"),
        (&["--all"][..], "inbox: unknown argument --all"),
        (&["-"][..], "inbox: unknown argument -"),
        (&["x"][..], "inbox: unexpected argument x"),
        (&[""][..], "inbox: unexpected argument "),
        (&["x", "--all"][..], "inbox: unexpected argument x"),
    ];
    for (argv, error) in cases {
        assert_eq!(inbox_parse_list_args(&strings(argv)), err(error), "{argv:?}");
    }
}

#[test]
fn flag_spellings_agree() {
    for value in ["bob", "", " ", "a/b", "7", "x"] {
        assert_eq!(
            inbox_parse_list_args(&strings(&["--from", value, "--unread"])),
            inbox_parse_list_args(&strings(&[&format!("--from={value}"), "--unread"])),
            "{value:?}"
        );
        assert_eq!(
            inbox_parse_list_args(&strings(&["--last", value, "--unread"])),
            inbox_parse_list_args(&strings(&[&format!("--last={value}"), "--unread"])),
            "{value:?}"
        );
        assert_eq!(
            inbox_parse_drain_args(&strings(&["--max", value, "--safe"])),
            inbox_parse_drain_args(&strings(&[&format!("--max={value}"), "--safe"])),
            "{value:?}"
        );
        assert_eq!(
            inbox_parse_drain_args(&strings(&["--older-than-hours", value, "--safe"])),
            inbox_parse_drain_args(&strings(&[&format!("--older-than-hours={value}"), "--safe"])),
            "{value:?}"
        );
    }
}

#[test]
fn rows_keep_their_numbers() {
    let messages = vec![
        message("a.md", "bob", true, 0, "a"),
        message("b.md", "eve", false, 0, "b"),
        message("c.md", "bob", false, 0, "c"),
    ];
    let ids = |unread: bool, from: Option<&str>| -> Vec<usize> {
        let options = InboxListOptions { unread, from: from.map(str::to_owned), last: None };
        inbox_list_rows(&messages, &options).iter().map(|row| row.id).collect()
    };
    assert_eq!(ids(false, None), vec![1, 2, 3]);
    assert_eq!(ids(true, None), vec![2, 3]);
    assert_eq!(ids(false, Some("bob")), vec![1, 3]);
    assert_eq!(ids(true, Some("bob")), vec![3]);
    assert_eq!(ids(false, Some("BOB")), Vec::<usize>::new());
    let all = InboxListOptions::default();
    assert_eq!(inbox_list_rows(&messages, &all)[1].message, &messages[1]);
}

#[test]
fn a_printed_row_number_is_accepted() {
    for number in [1_usize, 9, 10, 12345] {
        let text = format!("{number}");
        assert_eq!(inbox_validate_lookup_arg(&text, "id"), Ok(()));
        assert_eq!(inbox_parse_usize(&text, "--last"), Ok(number));
    }
}

#[test]
fn a_table_is_printed() {
    let messages = vec![
        message("a.md", "a sender with a long name", true, 400, "one\ntwo\n"),
        message("b.md", "bob", false, 100, &"x".repeat(60)),
    ];
    let table = inbox_run_list(&[], Ok(messages.clone()), 500, &cut, &pad, &ago).unwrap();
    let head = "\n\u{001b}[36mINBOX\u{001b}[0m (2 total)\n\n  ID R FROM           WHEN       SUBJECT\n  -- - -------------- ---------- --------------------------------------------\n";
    let first = "   1 \u{001b}[90m○\u{001b}[0m a sender with  100 ago    one two \n";
    let second = format!("   2 \u{001b}[32m●\u{001b}[0m bob            400 ago    {}\n", "x".repeat(50));
    assert_eq!(table, format!("{head}{first}{second}\n"));

    let short = inbox_run_list(&strings(&["--last", "1"]), Ok(messages.clone()), 500, &cut, &pad, &ago);
    assert_eq!(short, Ok(format!("{head}{first}\n")));
    let none = inbox_run_list(&strings(&["--last", "0"]), Ok(messages.clone()), 500, &cut, &pad, &ago);
    assert_eq!(none, Ok(format!("{head}\n")));
    let hidden = inbox_run_list(&strings(&["--from", "eve"]), Ok(messages), 500, &cut, &pad, &ago);
    assert_eq!(hidden, Ok("\u{001b}[90mno inbox messages\u{001b}[0m\n".to_owned()));
}

#[test]
fn a_table_shows_twenty_rows() {
    let messages: Vec<InboxMessage> =
        (0..123).map(|index| message(&format!("{index}.md"), "bob", false, 0, "hello")).collect();
    let table = inbox_run_list(&[], Ok(messages.clone()), 0, &cut, &pad, &ago).unwrap();
    assert!(table.contains("(123 total)"), "{table}");
    assert!(table.contains("  20 \u{001b}[32m●\u{001b}[0m bob"), "{table}");
    assert!(!table.contains("  21 "), "{table}");
    let rows = inbox_list_rows(&messages, &InboxListOptions::default());
    let whole = inbox_render_list(&rows, usize::MAX, 0, &cut, &pad, &ago);
    assert!(whole.contains("\n  123 \u{001b}[32m●\u{001b}[0m bob"), "{whole}");
}

#[test]
fn a_listing_fails_for_its_first_reason() {
    let bad = inbox_run_list(&strings(&["x"]), err("no disk"), 0, &cut, &pad, &ago);
    assert_eq!(bad, err("inbox: unexpected argument x"));
    let gone = inbox_run_list(&[], err("no disk"), 0, &cut, &pad, &ago);
    assert_eq!(gone, err("no disk"));
}

fn pick<'a>(messages: &'a [InboxMessage], target: Option<&str>) -> Option<&'a InboxMessage> {
    match target {
        Some(name) => messages.iter().find(|entry| entry.filename.contains(name)),
        None => messages.first(),
    }
}

fn pick_none<'a>(_: &'a [InboxMessage], _: Option<&str>) -> Option<&'a InboxMessage> {
    None
}

#[test]
fn a_message_is_shown() {
    let shown = inbox_render_show(&message("a.md", "bob", true, 7, "one\ntwo"), &label);
    assert_eq!(
        shown,
        "\n\u{001b}[36ma.md\u{001b}[0m\n\u{001b}[90mfrom: bob\u{001b}[0m\n\u{001b}[90mwhen: at 7\u{001b}[0m\n\none\ntwo\n"
    );
}

#[test]
fn showing_takes_one_name() {
    assert_eq!(inbox_show_target(&[]), Ok(None));
    assert_eq!(inbox_show_target(&strings(&["a"])), Ok(Some("a")));
    assert_eq!(inbox_show_target(&strings(&["-a"])), err("inbox: invalid message"));
    assert_eq!(inbox_show_target(&strings(&["a", "b"])), err("usage: maw inbox show [N|name]"));
}

#[test]
fn showing_picks_a_message() {
    let messages = vec![report("a.md", 1), report("b.md", 2)];
    let first = inbox_run_show(&[], Ok(messages.clone()), &pick, &label);
    assert_eq!(first, Ok(inbox_render_show(&messages[0], &label)));
    let named = inbox_run_show(&strings(&["b"]), Ok(messages.clone()), &pick, &label);
    assert_eq!(named, Ok(inbox_render_show(&messages[1], &label)));
    let missing = inbox_run_show(&strings(&["zz"]), Ok(messages.clone()), &pick, &label);
    assert_eq!(missing, Ok("\u{001b}[31merror\u{001b}[0m: not found: zz\n".to_owned()));
    let unnamed = inbox_run_show(&[], Ok(messages.clone()), &pick_none, &label);
    assert_eq!(unnamed, Ok("\u{001b}[31merror\u{001b}[0m: not found: \n".to_owned()));
    let empty = inbox_run_show(&strings(&["a"]), Ok(Vec::new()), &pick, &label);
    assert_eq!(empty, Ok("\u{001b}[90mno inbox messages\u{001b}[0m\n".to_owned()));
    let many = inbox_run_show(&strings(&["a", "b"]), Ok(messages.clone()), &pick, &label);
    assert_eq!(many, err("usage: maw inbox show [N|name]"));
    let bad = inbox_run_show(&strings(&["a/b"]), err("no disk"), &pick, &label);
    assert_eq!(bad, err("inbox: invalid message"));
    assert_eq!(inbox_run_show(&strings(&["a"]), err("no disk"), &pick, &label), err("no disk"));
}

fn mark(content: &str, now_ms: u64) -> String {
    content.replace("read: false", &format!("read: true at {now_ms}"))
}

fn step(state: InboxReadState, event: InboxReadEvent) -> InboxReadAction {
    inbox_run_mark_read(state, event, 9, &label, &mark)
}

fn finding() -> InboxReadState {
    inbox_begin_mark_read(&strings(&["ci"])).unwrap()
}

fn finish(result: Result<String, String>) -> InboxReadAction {
    InboxReadAction::Finish { result }
}

#[test]
fn marking_begins_with_a_name() {
    assert_eq!(finding(), InboxReadState::Finding { id: "ci".to_owned() });
    assert_eq!(inbox_begin_mark_read(&[]), err("usage: maw inbox read <id>"));
    assert_eq!(inbox_begin_mark_read(&strings(&["a", "b"])), err("usage: maw inbox read <id>"));
    assert_eq!(inbox_begin_mark_read(&strings(&["a/b"])), err("inbox: invalid id"));
}

#[test]
fn marking_writes_what_changed() {
    let entry = report("ci.md", 3);
    let shown = inbox_render_show(&entry, &label);
    let state = match step(finding(), InboxReadEvent::Found(Ok(Some(entry)))) {
        InboxReadAction::ReadFile { state } => state,
        other => panic!("{other:?}"),
    };
    let state = match step(state, InboxReadEvent::Content(Ok("a\nread: false\n".to_owned()))) {
        InboxReadAction::WriteFile { state, text } => {
            assert_eq!(text, "a\nread: true at 9\n");
            state
        }
        other => panic!("{other:?}"),
    };
    assert_eq!(
        step(state, InboxReadEvent::Written(Ok(()))),
        finish(Ok(format!("{shown}\n\u{001b}[32m✓\u{001b}[0m marked read: ci.md\n")))
    );
}

#[test]
fn marking_leaves_a_read_message_alone() {
    let mut entry = report("ci.md", 3);
    entry.read = true;
    let shown = inbox_render_show(&entry, &label);
    assert_eq!(
        step(finding(), InboxReadEvent::Found(Ok(Some(entry)))),
        finish(Ok(format!("{shown}\n\u{001b}[90malready read:\u{001b}[0m ci.md\n")))
    );
}

#[test]
fn marking_fails_in_each_step() {
    assert_eq!(step(finding(), InboxReadEvent::Found(err("no disk"))), finish(err("no disk")));
    assert_eq!(
        step(finding(), InboxReadEvent::Found(Ok(None))),
        finish(err("message not found: ci"))
    );
    let reading =
        || InboxReadState::Reading { message: report("ci.md", 3), shown: "shown".to_owned() };
    assert_eq!(
        step(reading(), InboxReadEvent::Content(err("denied"))),
        finish(err("inbox: read in/ci.md: denied"))
    );
    assert_eq!(
        step(reading(), InboxReadEvent::Content(Ok("nothing to mark".to_owned()))),
        finish(err("could not mark read: ci.md"))
    );
    let writing = InboxReadState::Writing { message: report("ci.md", 3), shown: "shown".to_owned() };
    assert_eq!(
        step(writing, InboxReadEvent::Written(err("full"))),
        finish(err("inbox: write in/ci.md: full"))
    );
}

#[test]
fn notes_are_joined() {
    assert_eq!(inbox_parse_write_note(&strings(&["one"])), Ok("one".to_owned()));
    assert_eq!(inbox_parse_write_note(&strings(&["one", "", "two"])), Ok("one  two".to_owned()));
    assert_eq!(inbox_parse_write_note(&strings(&["a", "--", "-b"])), Ok("a -- -b".to_owned()));
    assert_eq!(inbox_parse_write_note(&strings(&["--", "--", "-b"])), Ok("-- -b".to_owned()));
    assert_eq!(
        inbox_parse_write_note(&strings(&["--", "one", "two"])),
        inbox_parse_write_note(&strings(&["one", "two"]))
    );
    assert_eq!(inbox_parse_write_note(&[]), err("usage: maw inbox write <msg>"));
    assert_eq!(inbox_parse_write_note(&strings(&["--"])), err("usage: maw inbox write <msg>"));
    for first in ["-", "-a", "---"] {
        assert_eq!(
            inbox_parse_write_note(&strings(&[first, "b"])),
            err("inbox: write message starting with '-' requires -- separator")
        );
    }
}

#[test]
fn notes_need_an_inbox() {
    assert_eq!(
        inbox_run_write(&strings(&["hi", "you"]), &env(), true, "psi/inbox"),
        Ok(InboxWriteAction::WriteNote {
            from: "mac-mini".to_owned(),
            to: "mac-mini".to_owned(),
            note: "hi you".to_owned(),
        })
    );
    assert_eq!(
        inbox_run_write(&strings(&["hi"]), &env(), false, "psi/inbox"),
        Ok(InboxWriteAction::Print {
            text: "\u{001b}[31merror\u{001b}[0m: inbox not found: psi/inbox\n".to_owned(),
        })
    );
    assert_eq!(inbox_run_write(&[], &env(), false, "psi/inbox"), err("usage: maw inbox write <msg>"));
    assert_eq!(
        inbox_finish_write(Ok("n.md".to_owned())),
        Ok("\u{001b}[32m✓\u{001b}[0m wrote \u{001b}[33mn.md\u{001b}[0m\n".to_owned())
    );
    assert_eq!(inbox_finish_write(err("full")), err("full"));
}

#[test]
fn every_part_has_its_words() {
    let cases = [
        ("pending", InboxCommand::Pending),
        ("queue", InboxCommand::Pending),
        ("show-pending", InboxCommand::ShowPending),
        ("pending-show", InboxCommand::ShowPending),
        ("approve", InboxCommand::Approve),
        ("reject", InboxCommand::Reject),
        ("list", InboxCommand::List),
        ("ls", InboxCommand::List),
        ("read", InboxCommand::Read),
        ("show", InboxCommand::Show),
        ("write", InboxCommand::Write),
        ("status", InboxCommand::Status),
        ("drain", InboxCommand::Drain),
    ];
    for (word, command) in cases {
        let came = inbox_run_at(&strings(&[word, "x"]), false);
        assert_eq!(came, Ok(InboxRoute::Run { command, from: 1 }), "{word}");
    }
    let whole = Ok(InboxRoute::Run { command: InboxCommand::List, from: 0 });
    assert_eq!(inbox_run_at(&[], false), whole);
    assert_eq!(inbox_run_at(&strings(&["--unread", "x"]), false), whole);
    assert_eq!(inbox_run_at(&strings(&["Drain"]), false), err("inbox: unknown subcommand Drain"));
    assert_eq!(inbox_run_at(&strings(&[""]), false), err("inbox: unknown subcommand "));
}

#[test]
fn a_command_ends_with_its_code() {
    assert_eq!(
        run_inbox_command(Ok("out\n".to_owned())),
        CliOutput { code: 0, stdout: "out\n".to_owned(), stderr: String::new() }
    );
    assert_eq!(
        run_inbox_command(err("bad")),
        CliOutput { code: 1, stdout: String::new(), stderr: "bad\n".to_owned() }
    );
}

#[test]
fn a_send_is_answered() {
    let left = |code: i32, stdout: &str, stderr: &str| {
        InboxSystemSender.inbox_send(&CliOutput {
            code,
            stdout: stdout.to_owned(),
            stderr: stderr.to_owned(),
        })
    };
    assert_eq!(left(0, "", "noise"), Ok(()));
    assert_eq!(left(1, "out", " no peer \n"), err("inbox: maw hey failed: no peer"));
    assert_eq!(left(2, "\tout\n", " \n"), err("inbox: maw hey failed: out"));
    assert_eq!(left(-1, "", ""), err("inbox: maw hey failed: "));
    assert_eq!(
        InboxSystemSender.inbox_request("a/b", "hi", true),
        err("inbox: invalid query")
    );
    let hey = InboxSystemSender.inbox_request("bob", " - hi\n", false).unwrap();
    assert_eq!((hey.query.as_str(), hey.message.as_str(), hey.acl_bypass), ("bob", " - hi\n", false));
}

#[test]
fn limits_are_what_they_were() {
    assert_eq!(INBOX_UNREAD_RED_THRESHOLD, 50);
    assert_eq!(INBOX_OLDEST_RED_SECONDS, 14_400);
    assert_eq!(INBOX_ARCHIVE_RED_SECONDS, 28_800);
    assert_eq!(INBOX_PENDING_TTL_SECONDS, 2_592_000);
}

fn json(text: &str) -> serde_json::Value {
    serde_json::from_str(text).unwrap()
}

#[test]
fn settings_fall_back() {
    let config = json(r#"{"a": "x", "b": "", "c": 3, "d": null, "e": ["x"], "f": {"a": "y"}}"#);
    assert_eq!(inbox_config_string(&config, "a", "z"), "x");
    for key in ["b", "c", "d", "e", "f", "g"] {
        assert_eq!(inbox_config_string(&config, key, "z"), "z", "{key}");
    }
    for text in ["[]", "\"a\"", "null", "1"] {
        assert_eq!(inbox_config_string(&json(text), "a", "z"), "z", "{text}");
    }
}

#[test]
fn the_inbox_has_its_place() {
    let named = |path: &InboxPath| (format!("{:?}", path.root), path.names.join("/"));
    let given = json(r#"{"psiPath": "/srv/psi"}"#);
    for unicode_exists in [true, false] {
        let path = inbox_resolve_dir(&given, unicode_exists);
        assert_eq!(path.root, InboxRoot::Given("/srv/psi".to_owned()));
        assert_eq!(path.names, strings(&["inbox"]));
    }
    let empty = inbox_resolve_dir(&json(r#"{"psiPath": ""}"#), true);
    assert_eq!(empty.root, InboxRoot::Given(String::new()));
    for text in ["{}", r#"{"psiPath": 4}"#, "[]"] {
        assert_eq!(
            named(&inbox_resolve_dir(&json(text), true)),
            ("WorkingDir".to_owned(), "ψ/inbox".to_owned())
        );
        assert_eq!(
            named(&inbox_resolve_dir(&json(text), false)),
            ("WorkingDir".to_owned(), "psi/inbox".to_owned())
        );
    }
}

#[test]
fn the_inbox_has_its_owner() {
    assert_eq!(inbox_oracle_from_dir(Some("nova")), Some("nova".to_owned()));
    assert_eq!(inbox_oracle_from_dir(Some("nova-oracle")), Some("nova".to_owned()));
    assert_eq!(inbox_oracle_from_dir(Some("nova-oracle.wt-1.wt-2")), Some("nova".to_owned()));
    assert_eq!(inbox_oracle_from_dir(Some("nova-oracle-oracle")), Some("nova-oracle".to_owned()));
    assert_eq!(inbox_oracle_from_dir(Some("nova.wt")), Some("nova.wt".to_owned()));
    assert_eq!(inbox_oracle_from_dir(Some("-oracle")), None);
    assert_eq!(inbox_oracle_from_dir(Some(".wt-1")), None);
    assert_eq!(inbox_oracle_from_dir(Some("")), None);
    assert_eq!(inbox_oracle_from_dir(None), None);

    let config = json(r#"{"oracle": "profile"}"#);
    assert_eq!(inbox_resolve_oracle(&config, Some("nova")), "nova");
    assert_eq!(inbox_resolve_oracle(&json("{}"), Some("nova")), "nova");
    assert_eq!(inbox_resolve_oracle(&config, Some("-oracle")), "profile");
    assert_eq!(inbox_resolve_oracle(&config, None), "profile");
    assert_eq!(inbox_resolve_oracle(&json("{}"), None), "local");
    let given = json(r#"{"oracle": "profile", "psiPath": "p"}"#);
    assert_eq!(inbox_resolve_oracle(&given, Some("nova")), "profile");
    assert_eq!(inbox_resolve_oracle(&json(r#"{"psiPath": "p"}"#), Some("nova")), "local");
}

#[test]
fn the_repository_lies_two_above() {
    let at = || InboxPath::at(InboxRoot::WorkingDir);
    let two = at().join("psi").join("inbox");
    assert_eq!(inbox_repo_of(&two, Some("nova")), Some("nova"));
    assert_eq!(inbox_repo_of(&two, None), None);
    let three = at().join("repo").join("psi").join("inbox");
    assert_eq!(inbox_repo_of(&three, Some("nova")), Some("repo"));
    assert_eq!(inbox_repo_of(&at().join("inbox"), Some("nova")), None);
    assert_eq!(inbox_repo_of(&at(), Some("nova")), None);
}

#[test]
fn settings_decide_alone() {
    assert_eq!(inbox_setting(Some("x"), "z"), "x");
    assert_eq!(inbox_setting(Some(""), "z"), "z");
    assert_eq!(inbox_setting(None, "z"), "z");
    assert_eq!(inbox_place_from(Some("/p"), true), inbox_place_from(Some("/p"), false));
    assert_eq!(inbox_place_from(None, true).names, strings(&["ψ", "inbox"]));
    assert_eq!(inbox_place_from(None, false).names, strings(&["psi", "inbox"]));
    assert_eq!(inbox_owner_from(None, Some("profile"), Some("nova")), "nova");
    assert_eq!(inbox_owner_from(Some("/p"), Some("profile"), Some("nova")), "profile");
    assert_eq!(inbox_owner_from(None, None, None), "local");

    let config = json(r#"{"oracle": "profile", "node": "n", "psiPath": "/p"}"#);
    assert_eq!(
        inbox_env_from_settings(Some("/p"), Some("profile"), Some("n"), true, Some("nova")),
        inbox_env_from_config(&config, true, Some("nova"))
    );
    assert_eq!(
        inbox_env_from_settings(None, None, None, false, Some("nova")),
        inbox_env_from_config(&json("{}"), false, Some("nova"))
    );
}

#[test]
fn the_archive_has_a_folder() {
    let path = inbox_archive_folder(&env(), 7, &day_label);
    assert_eq!(path.root, InboxRoot::WorkingDir);
    assert_eq!(path.names, strings(&["psi", "inbox", "processed", "day-7 and "]));
}

#[test]
fn the_surroundings_are_put_together() {
    let env = inbox_env_from_config(&json("{}"), false, Some("nova-oracle"));
    assert_eq!(env.oracle, "nova");
    assert_eq!(env.node, "cli");
    assert_eq!(env.pending_dir, InboxPath::at(InboxRoot::ConfigDir).join("pending"));
    assert_eq!(env.state_dir, InboxPath::at(InboxRoot::StateDir));
    assert_eq!(
        inbox_state_pending_dir(&env),
        InboxPath::at(InboxRoot::StateDir).join("pending")
    );
}

fn drain_options(argv: &[&str]) -> Result<InboxDrainOptions, String> {
    let argv = strings(argv);
    assert!(inbox_drain_args_fit(&argv));
    inbox_parse_drain_args(&argv)
}

#[test]
fn drain_flags_are_read() {
    assert_eq!(
        drain_options(&["--safe"]),
        Ok(InboxDrainOptions {
            oracle: None,
            json: false,
            dry_run: true,
            max: 25,
            older_than_seconds: 14_400,
        })
    );
    assert_eq!(
        drain_options(&[
            "--json", "--max=3", "nova", "--older-than-hours", "0.5", "--dry-run", "--safe", "--safe"
        ]),
        Ok(InboxDrainOptions {
            oracle: Some("nova".to_owned()),
            json: true,
            dry_run: true,
            max: 3,
            older_than_seconds: 1_800,
        })
    );
    let last = drain_options(&["--safe", "--max", "1", "--max", "2"]).unwrap();
    assert_eq!(last.max, 2);
    let heads = drain_options(&["--safe", "--max=--max=4"]).unwrap();
    assert_eq!(heads.max, 4);
}

#[test]
fn drain_flags_are_refused() {
    let cases = [
        (&[][..], DRAIN_USAGE),
        (&["--json", "--dry-run"][..], DRAIN_USAGE),
        (&["a", "b", "--safe"][..], DRAIN_USAGE),
        (&["--safe", "a/b"][..], "inbox: invalid oracle"),
        (&["--safe", ""][..], "inbox: invalid oracle"),
        (&["--safe", "--max"][..], "inbox: missing --max value"),
        (&["--safe", "--max", "-1"][..], "inbox: --max value must not start with '-'"),
        (&["--safe", "--max", "x"][..], "--max must be a non-negative integer"),
        (&["--safe", "--max="][..], "--max must be a non-negative integer"),
        (&["--safe", "--older-than-hours"][..], "inbox: missing --older-than-hours value"),
        (
            &["--safe", "--older-than-hours", "--json"][..],
            "inbox: --older-than-hours value must not start with '-'",
        ),
        (&["--safe", "--older-than-hours", "x"][..], NO_NUMBER),
        (&["--safe", "--older-than-hours="][..], NO_NUMBER),
        (
            &["--safe", "--older-than-hours=9999999999999999"][..],
            "--older-than-hours is too large",
        ),
        (&["--safe", "--unsafe"][..], "inbox: unknown argument --unsafe"),
        (&["--nope", "a", "b"][..], "inbox: unknown argument --nope"),
    ];
    for (argv, error) in cases {
        assert_eq!(drain_options(argv), err(error), "{argv:?}");
    }
}

#[test]
fn drain_ages_have_to_fit() {
    let over = "5124095576030431.9";
    assert!(!inbox_drain_args_fit(&strings(&["--older-than-hours", over])));
    assert!(!inbox_drain_args_fit(&strings(&[
        "--safe",
        &format!("--older-than-hours={over}"),
        "--nope"
    ])));
    assert!(inbox_drain_args_fit(&strings(&["--nope", "--older-than-hours", over])));
    assert!(inbox_drain_args_fit(&strings(&["--max", over, "--older-than-hours", over])));
    assert!(inbox_drain_args_fit(&strings(&["--older-than-hours", "1"])));
}

#[test]
fn one_drain_argument_at_a_time() {
    let argv = strings(&["--max", "7", "nova"]);
    let mut options = drain_options(&["--safe"]).unwrap();
    let mut safe = false;
    let mut index = 0_usize;
    assert_eq!(inbox_parse_drain_arg(&argv, &mut index, &mut options, &mut safe), Ok(()));
    assert_eq!((index, options.max, safe), (1, 7, false));
    index += 1;
    assert_eq!(inbox_parse_drain_arg(&argv, &mut index, &mut options, &mut safe), Ok(()));
    assert_eq!((index, options.oracle.as_deref()), (2, Some("nova")));
    assert_eq!(inbox_set_drain_oracle(&mut options, " x"), err("inbox: invalid oracle"));
    assert_eq!(options.oracle.as_deref(), Some("nova"));
    assert_eq!(inbox_set_drain_oracle(&mut options, "kakashi"), err(DRAIN_USAGE));
    assert_eq!(options.oracle.as_deref(), Some("kakashi"));
}

#[test]
fn a_drain_is_local() {
    let begin = |argv: &[&str]| inbox_begin_drain(&strings(argv), "nova");
    assert_eq!(begin(&["--safe"]).unwrap().oracle, None);
    assert_eq!(begin(&["nova", "--safe"]).unwrap().oracle, Some("nova".to_owned()));
    assert_eq!(
        begin(&["kakashi", "--safe"]),
        err("inbox: native drain currently supports local inbox only")
    );
    assert_eq!(begin(&["kakashi"]), err(DRAIN_USAGE));
}

fn reason(filename: &str, body: &str) -> Option<String> {
    inbox_safe_drain_reason(&message(filename, "alice", false, 0, body))
}

#[test]
fn every_routine_pattern_gives_its_reason() {
    let patterns = inbox_safe_reason_patterns();
    assert_eq!(patterns.len(), 9);
    for (name, needle) in patterns {
        assert_eq!(reason("n.md", &format!("[x] {needle}")).as_deref(), Some(name));
        assert_eq!(reason("n.md", &format!("[X] {}", needle.to_uppercase())).as_deref(), Some(name));
        assert_eq!(reason(&format!("{needle}.md"), "[x] hello"), None);
        assert_eq!(inbox_first_reason(needle).as_deref(), Some(name));
    }
    assert_eq!(inbox_first_reason("VERIFIED"), None);
    assert_eq!(inbox_first_reason("verified alpha pushed").as_deref(), Some("alpha-pushed"));
}

#[test]
fn only_routine_reports_are_safe() {
    assert_eq!(reason("n.md", "\n \r\n\t[x] verified \r\nwhat?").as_deref(), Some("verified"));
    assert_eq!(reason("n.md", "verified [x]"), None);
    assert_eq!(reason("n.md", "[x verified"), None);
    assert_eq!(reason("n.md", "[x] verified?"), None);
    assert_eq!(reason("n.md", "[x] hello\nverified"), None);
    assert_eq!(reason("n.md", "hello\n[x] verified"), None);
    assert_eq!(reason("n.md", ""), None);
    assert_eq!(reason("n.md", " \n\n "), None);
    assert_eq!(reason("verified.md", "]["), None);
    assert_eq!(reason("no response", "[x] needed"), None);
    assert_eq!(reason("2026-06-25_00-00_bob_verified.md", "[bob] please look at this"), None);
    assert_eq!(reason("n.md", "[ÄÖ] VERIFIED").as_deref(), Some("verified"));
    assert_eq!(reason("n.md", "[x] \u{212a} local ship commit").as_deref(), Some("local-ship"));
}

#[test]
fn candidates_have_lain_long_enough() {
    let messages = vec![
        report("young.md", 9_000),
        message("plain.md", "alice", false, 0, "please look"),
        report("old.md", 0),
        report("edge.md", 5_000),
    ];
    let candidates = inbox_drain_candidates(&messages, 10_000, 5, &age);
    let found: Vec<(&str, u64)> = candidates
        .iter()
        .map(|candidate| (candidate.message.filename.as_str(), candidate.age_seconds))
        .collect();
    assert_eq!(found, vec![("old.md", 10), ("edge.md", 5)]);
    assert!(candidates.iter().all(|candidate| candidate.reason == "verified"));
    assert_eq!(inbox_drain_candidates(&messages, 10_000, 0, &age).len(), 3);
    assert_eq!(inbox_drain_candidates(&messages, 10_000, 11, &age).len(), 0);
}

#[test]
fn the_youngest_are_taken_first() {
    let messages = vec![
        report("a.md", 1_000),
        report("b.md", 7_000),
        report("c.md", 1_000),
        report("d.md", 3_000),
        report("e.md", 7_000),
    ];
    let taken = |max: usize| -> Vec<String> {
        inbox_select_candidates(inbox_drain_candidates(&messages, 10_000, 0, &age), max)
            .into_iter()
            .map(|candidate| candidate.message.filename)
            .collect()
    };
    assert_eq!(taken(9), strings(&["b.md", "e.md", "d.md", "a.md", "c.md"]));
    assert_eq!(taken(3), strings(&["b.md", "e.md", "d.md"]));
    assert_eq!(taken(0), Vec::<String>::new());
}

fn names(filename: &str) -> Vec<String> {
    let first = inbox_unique_archive_path(filename);
    let mut all = vec![first.name()];
    assert!(first.can_go_on());
    let second = first.go_on();
    all.push(second.name());
    let third = second.go_on();
    all.push(third.name());
    all
}

#[test]
fn archive_names_are_numbered() {
    assert_eq!(names("a.md"), strings(&["a.md", "a-2.md", "a-3.md"]));
    assert_eq!(names("A.MD"), strings(&["A.MD", "A.MD-2.md", "A.MD-3.md"]));
    assert_eq!(names("a.Md"), strings(&["a.Md", "a.Md-2.md", "a.Md-3.md"]));
    assert_eq!(names(".md"), strings(&[".md", "-2", "-3"]));
    assert_eq!(names("..md"), strings(&["..md", ".-2.md", ".-3.md"]));
    assert_eq!(names("note.txt"), strings(&["note.txt", "note.txt-2", "note.txt-3"]));
    assert_eq!(names("a.md.bak"), strings(&["a.md.bak", "a.md.bak-2", "a.md.bak-3"]));
    assert_eq!(names("a.b.md"), strings(&["a.b.md", "a.b-2.md", "a.b-3.md"]));
    assert_eq!(names("note"), strings(&["note", "note-2", "note-3"]));
    assert_eq!(names("note."), strings(&["note.", "note.-2", "note.-3"]));
    assert_eq!(names(".."), strings(&["..", "..-2", "..-3"]));
    assert_eq!(names(""), strings(&["", "-2", "-3"]));
    assert_eq!(names("10:30.md"), strings(&["10:30.md", "10:30-2.md", "10:30-3.md"]));
    assert_eq!(names("note:a.md"), strings(&["note:a.md", "note:a-2.md", "note:a-3.md"]));
    assert_eq!(names("C:a.md"), strings(&["C:a.md", "C:a-2.md", "C:a-3.md"]));
    assert_eq!(names("x\\y.md"), strings(&["x\\y.md", "x\\y-2.md", "x\\y-3.md"]));
    assert_eq!(names("x\\y.txt"), strings(&["x\\y.txt", "x\\y.txt-2", "x\\y.txt-3"]));
    assert_eq!(names("x\\y"), strings(&["x\\y", "x\\y-2", "x\\y-3"]));
    assert_eq!(names("ψ.md"), strings(&["ψ.md", "ψ-2.md", "ψ-3.md"]));
}

#[test]
fn an_extension_decides_the_ending() {
    let name = |extension: Option<&str>| InboxArchiveName::start("a", extension).go_on().name();
    assert_eq!(name(Some("mD")), "a-2.md");
    assert_eq!(name(Some("m")), "a-2");
    assert_eq!(name(Some("mdx")), "a-2");
    assert_eq!(name(None), "a-2");
    let mut search = InboxArchiveName::start("a", None);
    for _ in 0..9 {
        search = search.go_on();
    }
    assert_eq!(search.name(), "a-10");
}

#[test]
fn a_free_name_comes_up() {
    let taken = strings(&["a.md", "a-2.md", "a-4.md"]);
    let mut search = inbox_unique_archive_path("a.md");
    let mut tries = 0_usize;
    while taken.contains(&search.name()) {
        search = search.go_on();
        tries += 1;
    }
    assert_eq!(search.name(), "a-3.md");
    assert!(tries <= taken.len());
}

#[test]
fn the_archive_has_a_day() {
    let day = |text: &'static str| inbox_archive_day(5, &move |_: u64| text.to_owned());
    assert_eq!(day("2026-06-25T00:05:00.000Z"), "2026-06-25");
    assert_eq!(day("2026-06-25"), "2026-06-25");
    assert_eq!(day("2026-06-2"), "1970-01-01");
    assert_eq!(day(""), "1970-01-01");
    assert_eq!(day("2026-06-2ψ"), "1970-01-01");
    assert_eq!(day("2026-06-ψT"), "2026-06-ψ");
    assert_eq!(inbox_archive_day(1234567, &label), "at 1234567");
}

#[test]
fn a_move_is_answered() {
    assert_eq!(inbox_archive_message("s", "d", InboxMove::Moved), Ok(()));
    assert_eq!(
        inbox_archive_message(
            "s",
            "d",
            InboxMove::NoFolder { folder: "f".to_owned(), error: "denied".to_owned() }
        ),
        err("inbox: create f: denied")
    );
    assert_eq!(
        inbox_archive_message("s", "d", InboxMove::NotMoved { error: "gone".to_owned() }),
        err("inbox: archive s -> d: gone")
    );
}

#[test]
fn the_latest_moment_is_found() {
    let mut latest = Some(5);
    assert_eq!(inbox_scan_archive_day(&None, &mut latest), Ok(()));
    assert_eq!(latest, Some(5));
    assert_eq!(inbox_scan_archive_day(&Some(vec![Ok(3), Ok(9), Ok(7)]), &mut latest), Ok(()));
    assert_eq!(latest, Some(9));
    assert_eq!(
        inbox_scan_archive_day(&Some(vec![Ok(11), err("denied"), Ok(20)]), &mut latest),
        err("denied")
    );
    assert_eq!(latest, Some(11));

    assert_eq!(inbox_latest_archive_mtime_ms(&None), Ok(None));
    assert_eq!(inbox_latest_archive_mtime_ms(&Some(Vec::new())), Ok(None));
    assert_eq!(inbox_latest_archive_mtime_ms(&Some(vec![None, Some(Vec::new())])), Ok(None));
    let days = Some(vec![Some(vec![Ok(0)]), None, Some(vec![Ok(8), Ok(2)])]);
    assert_eq!(inbox_latest_archive_mtime_ms(&days), Ok(Some(8)));
    let broken = Some(vec![Some(vec![Ok(1)]), Some(vec![err("denied")]), Some(vec![err("late")])]);
    assert_eq!(inbox_latest_archive_mtime_ms(&broken), err("denied"));
}

struct Archive {
    taken: Vec<String>,
    moved: Vec<(String, String)>,
    broken: bool,
}

impl Archive {
    fn with(taken: &[&str]) -> Archive {
        Archive { taken: strings(taken), moved: Vec::new(), broken: false }
    }

    fn preview(&mut self, argv: &[&str], messages: &[InboxMessage]) -> Result<InboxDrainResult, String> {
        let options = inbox_begin_drain(&strings(argv), "nova")?;
        self.run(options, messages)
    }

    fn archive(&mut self, argv: &[&str], messages: &[InboxMessage]) -> Result<InboxDrainResult, String> {
        let argv = strings(argv);
        let options = inbox_begin_drain(&argv, "nova")?;
        self.run(inbox_confirm_drain(options, &argv, true), messages)
    }

    fn run(
        &mut self,
        options: InboxDrainOptions,
        messages: &[InboxMessage],
    ) -> Result<InboxDrainResult, String> {
        let mut run = inbox_drain_local(options, &env(), messages, 100_000, &age, &day_label);
        let folder = run.folder_path();
        assert_eq!(folder.root, InboxRoot::WorkingDir);
        assert_eq!(folder.names, strings(&["psi", "inbox", "processed", "day-100000"]));
        loop {
            assert!(run.can_go_on());
            run = match run.action() {
                InboxDrainAction::Probe { path } => {
                    assert_eq!(&path.names[..4], &folder.names[..]);
                    assert_eq!(path.names.len(), 5);
                    let taken = self.taken.contains(&path.names[4]);
                    let destination = format!("out/{}", path.names[4]);
                    run.go_on(InboxDrainEvent::Probed { taken, destination })
                }
                InboxDrainAction::Move { source, path, destination } => {
                    assert_eq!(path, folder.clone().join(destination.trim_start_matches("out/")));
                    assert_eq!(run.current_message().unwrap().path, source);
                    let name = path.names[4].clone();
                    assert!(!self.taken.contains(&name));
                    let came = if self.broken { err("inbox: full") } else { Ok(()) };
                    if came.is_ok() {
                        self.taken.push(name);
                        self.moved.push((source, destination));
                    }
                    run.go_on(InboxDrainEvent::Moved(came))
                }
                InboxDrainAction::Fail { error } => return Err(error),
                InboxDrainAction::Report => {
                    assert_eq!(run.current_message(), None);
                    return Ok(run.report("nova", "out"));
                }
            };
        }
    }
}

fn day_label(moment: u64) -> String {
    format!("day-{moment} and more")
}

fn four() -> Vec<InboxMessage> {
    vec![
        report("a.md", 10_000),
        message("talk.md", "bob", true, 0, "[bob] verified?"),
        report("b.md", 40_000),
        report("c.txt", 20_000),
    ]
}

#[test]
fn a_drain_moves_what_it_takes() {
    let mut archive = Archive::with(&["b.md", "b-2.md", "c.txt"]);
    let result = archive
        .archive(&["--safe", "--max=2", "--older-than-hours=0"], &four())
        .unwrap();
    assert_eq!(
        archive.moved,
        vec![
            ("in/b.md".to_owned(), "out/b-3.md".to_owned()),
            ("in/c.txt".to_owned(), "out/c.txt-2".to_owned()),
        ]
    );
    assert_eq!((result.scanned, result.matched, result.archived), (4, 3, 2));
    assert_eq!((result.remaining_matches, result.max), (1, 2));
    assert_eq!((result.dry_run, result.safe, result.older_than_seconds), (false, true, 0));
    assert_eq!((result.oracle.as_str(), result.processed_dir.as_str()), ("nova", "out"));
    assert_eq!(
        result.items[0],
        InboxDrainItem {
            id: "id-of-b.md".to_owned(),
            filename: "b.md".to_owned(),
            reason: "verified".to_owned(),
            age_seconds: 60,
            destination: Some("out/b-3.md".to_owned()),
            action: "archived".to_owned(),
        }
    );
    assert_eq!(result.items[1].destination.as_deref(), Some("out/c.txt-2"));
    assert_eq!(result.items.len(), 2);
}

#[test]
fn a_dry_run_moves_nothing() {
    let mut archive = Archive::with(&["a.md"]);
    let argv = ["--safe", "--dry-run", "--older-than-hours=0"];
    let result = archive.archive(&argv, &four()).unwrap();
    assert_eq!(archive.moved, Vec::new());
    assert_eq!((result.archived, result.remaining_matches, result.dry_run), (3, 0, true));
    assert!(result.items.iter().all(|item| item.action == "would_archive"));
    assert_eq!(result.items[2].destination.as_deref(), Some("out/a-2.md"));
}

#[test]
fn a_drain_stops_where_a_move_fails() {
    let mut archive = Archive::with(&[]);
    archive.broken = true;
    let argv = ["--safe", "--older-than-hours=0"];
    assert_eq!(archive.archive(&argv, &four()), err("inbox: full"));
    assert_eq!(archive.moved, Vec::new());
}

#[test]
fn a_drain_is_a_dry_run_until_it_is_confirmed() {
    let dry = |argv: &[&str]| drain_options(argv).map(|options| options.dry_run);
    assert_eq!(dry(&["--safe"]), Ok(true));
    assert_eq!(dry(&["--safe", "--dry-run"]), Ok(true));
    assert_eq!(
        dry(&["--safe", "--dry-run=false"]),
        err("inbox: unknown argument --dry-run=false")
    );
    let confirmed = |argv: &[&str], confirmed: bool| {
        inbox_confirm_drain(drain_options(argv).unwrap(), &strings(argv), confirmed)
    };
    let asked = drain_options(&["--safe", "--max=3", "--json", "nova"]).unwrap();
    assert_eq!(
        confirmed(&["--safe", "--max=3", "--json", "nova"], true),
        InboxDrainOptions { dry_run: false, ..asked.clone() }
    );
    assert_eq!(confirmed(&["--safe", "--max=3", "--json", "nova"], false), asked);
    assert!(confirmed(&["--dry-run", "--safe"], true).dry_run);
    assert!(inbox_previews_only(&strings(&["--safe", "--dry-run"])));
    assert!(!inbox_previews_only(&strings(&["--safe"])));
    assert!(!inbox_previews_only(&[]));
    let mut archive = Archive::with(&[]);
    let result = archive.preview(&["--safe", "--older-than-hours=0"], &four()).unwrap();
    assert!(result.dry_run);
    assert_eq!(archive.moved, Vec::new());
}

#[test]
fn a_dry_run_reports_what_is_taken() {
    let argv = ["--safe", "--max=2", "--older-than-hours=0"];
    let seen = Archive::with(&[]).preview(&argv, &four()).unwrap();
    let taken = Archive::with(&["b.md"]).archive(&argv, &four()).unwrap();
    assert_ne!(seen.dry_run, taken.dry_run);
    assert_eq!((&seen.oracle, &seen.processed_dir), (&taken.oracle, &taken.processed_dir));
    assert_eq!(
        (seen.scanned, seen.matched, seen.archived, seen.remaining_matches),
        (taken.scanned, taken.matched, taken.archived, taken.remaining_matches)
    );
    assert_eq!((seen.max, seen.older_than_seconds), (taken.max, taken.older_than_seconds));
    let short = |items: &[InboxDrainItem]| -> Vec<(String, String, String, u64)> {
        items
            .iter()
            .map(|item| {
                (item.id.clone(), item.filename.clone(), item.reason.clone(), item.age_seconds)
            })
            .collect()
    };
    assert_eq!(short(&seen.items), short(&taken.items));
    assert_eq!(seen.items.len(), 2);
}

#[test]
fn naming_the_own_oracle_makes_no_difference() {
    let rests = [
        &["--safe", "--max", "2", "--older-than-hours", "0"][..],
        &["--older-than-hours=0", "--dry-run", "--safe"][..],
        &["--json"][..],
        &["--safe", "--max", "x"][..],
        &["--safe", "--nope"][..],
        &[][..],
    ];
    for rest in rests {
        let mut named = vec!["nova"];
        named.extend_from_slice(rest);
        assert_eq!(
            inbox_drain_args_fit(&strings(&named)),
            inbox_drain_args_fit(&strings(rest)),
            "{rest:?}"
        );
        assert_eq!(
            Archive::with(&[]).archive(&named, &four()),
            Archive::with(&[]).archive(rest, &four()),
            "{rest:?}"
        );
    }
}

#[test]
fn only_approve_leads_to_approval() {
    let approves = |argv: &[&str], wants_help: bool| {
        matches!(
            inbox_run_at(&strings(argv), wants_help),
            Ok(InboxRoute::Run { command: InboxCommand::Approve, .. })
        )
    };
    assert!(approves(&["approve", "abc"], false));
    assert!(!approves(&["approve", "abc"], true));
    assert!(!approves(&["reject", "approve"], false));
    assert!(!approves(&["--approve"], false));
    assert!(!approves(&["Approve"], false));
    assert!(!approves(&[], false));
}

#[test]
fn records_can_be_copied() {
    let result = result_of(2, 5, false);
    assert_eq!(result.clone(), result);
    assert_eq!(result.items[0].clone(), result.items[0]);
    assert_eq!(env().clone(), env());
}

#[test]
fn a_drain_may_find_nothing() {
    let mut archive = Archive::with(&[]);
    let result = archive.preview(&["--safe"], &four()).unwrap();
    assert_eq!((result.scanned, result.matched, result.archived), (4, 0, 0));
    assert_eq!(result.items, Vec::new());
    let capped = archive.preview(&["--safe", "--max", "0", "--older-than-hours", "0"], &four()).unwrap();
    assert_eq!((capped.matched, capped.archived, capped.remaining_matches), (3, 0, 3));
}

fn result_of(count: usize, matched: usize, dry_run: bool) -> InboxDrainResult {
    let options = InboxDrainOptions {
        oracle: None,
        json: false,
        dry_run,
        max: count,
        older_than_seconds: 60,
    };
    let items = (0..count)
        .map(|index| {
            let entry = report(&format!("m{index}.md"), 0);
            inbox_drain_item(&entry, "verified", 2 * HOUR, &format!("out/m{index}.md"), dry_run)
        })
        .collect();
    inbox_drain_result("nova", &options, matched, 100, "out", items)
}

#[test]
fn a_report_counts_what_remains() {
    assert_eq!(result_of(2, 5, false).remaining_matches, 3);
    assert_eq!(result_of(2, 2, false).remaining_matches, 0);
    assert_eq!(result_of(2, 1, false).remaining_matches, 0);
    let asked = InboxDrainOptions {
        oracle: Some("kakashi".to_owned()),
        json: true,
        dry_run: false,
        max: 9,
        older_than_seconds: 60,
    };
    assert_eq!(inbox_drain_result("nova", &asked, 0, 0, "out", Vec::new()).oracle, "kakashi");
}

#[test]
fn a_report_is_worded() {
    assert_eq!(
        inbox_format_drain_result(&result_of(2, 5, false), &span),
        "nova: archived 2/100 scanned inbox message(s) (safe stale matches 5, max 2)\n   → 3 safe match(es) remain after max cap\n   - m0.md [verified, 2h]\n   - m1.md [verified, 2h]\n   → processed: out\n"
    );
    assert_eq!(
        inbox_format_drain_result(&result_of(0, 0, true), &span),
        "nova: would archive 0/100 scanned inbox message(s) (safe stale matches 0, max 0)\n   → no messages matched the safe stale-ack filter\n   → preview: out\n"
    );
    assert_eq!(
        inbox_format_drain_result(&result_of(0, 2, false), &span),
        "nova: archived 0/100 scanned inbox message(s) (safe stale matches 2, max 0)\n   → 2 safe match(es) remain after max cap\n   → no messages matched the safe stale-ack filter\n   → processed: out\n"
    );
    let long = inbox_format_drain_result(&result_of(12, 12, false), &span);
    assert_eq!(long.matches("   - ").count(), 10);
    assert!(long.contains("m9.md") && !long.contains("m10.md"), "{long}");
}

#[test]
fn a_drain_answers_in_json_where_asked() {
    let encode = |value: &InboxDrainResult| Ok(format!("<{}>", value.archived));
    let fails = |_: &InboxDrainResult| err("no json");
    assert_eq!(
        inbox_run_drain(true, Ok(result_of(2, 5, false)), encode, &span),
        Ok("<2>\n".to_owned())
    );
    assert_eq!(inbox_run_drain(true, Ok(result_of(2, 5, false)), fails, &span), err("no json"));
    assert_eq!(
        inbox_run_drain(false, Ok(result_of(2, 5, false)), fails, &span),
        Ok(inbox_format_drain_result(&result_of(2, 5, false), &span))
    );
    assert_eq!(inbox_run_drain(true, err("no disk"), encode, &span), err("no disk"));
    let value = json(r#"{"a":[1]}"#);
    let pretty = inbox_json_pretty(&value, |value: &serde_json::Value| {
        serde_json::to_string_pretty(value).map_err(|error| error.to_string())
    });
    assert_eq!(pretty, Ok("{\n  \"a\": [\n    1\n  ]\n}\n".to_owned()));
}
