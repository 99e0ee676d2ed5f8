use maw_inbox::args::inbox_single_id_arg;
use maw_inbox::command::{
    inbox_dispatch, inbox_run_at, InboxCommand, InboxRoute, InboxSystemSender, INBOX_USAGE,
};
use maw_inbox::config::{
    inbox_env_from_config, inbox_processed_dir, InboxEnv, InboxPath, InboxRoot,
};
use maw_inbox::drain_args::inbox_drain_args_fit;
use maw_inbox::drain_report::{inbox_begin_drain, inbox_run_drain};
use maw_inbox::drain_run::{inbox_drain_local, InboxDrainAction, InboxDrainEvent, InboxDrainResult};
use maw_inbox::mark_read::{
    inbox_begin_mark_read, inbox_run_mark_read, InboxReadAction, InboxReadEvent,
};
use maw_inbox::model::InboxMessage;
use maw_inbox::show::inbox_run_show;
use maw_inbox::table::inbox_run_list;
use maw_inbox::write::{inbox_finish_write, inbox_run_write, InboxWriteAction};

// 2026-06-25T00:05:00.000Z
const NOW_MS: u64 = 1_782_345_900_000;
// 2026-06-25T00:00:00.000Z
const SENT_MS: u64 = 1_782_345_600_000;
// 2026-06-26T00:00:00.000Z
const NEXT_DAY_MS: u64 = 1_782_432_000_000;

fn strings(values: &[&str]) -> Vec<String> {
    values.iter().map(|value| (*value).to_owned()).collect()
}

fn message(filename: &str, from: &str, read: bool, timestamp_ms: u64, body: &str) -> InboxMessage {
    InboxMessage {
        id: filename.trim_end_matches(".md").to_owned(),
        filename: filename.to_owned(),
        path: format!("psi/inbox/{filename}"),
        from: from.to_owned(),
        timestamp_ms,
        read,
        body: body.to_owned(),
    }
}

fn env() -> InboxEnv {
    InboxEnv {
        inbox_dir: InboxPath::at(InboxRoot::WorkingDir).join("psi").join("inbox"),
        pending_dir: InboxPath::at(InboxRoot::ConfigDir).join("pending"),
        state_dir: InboxPath::at(InboxRoot::StateDir),
        oracle: "nova".to_owned(),
        node: "cli".to_owned(),
    }
}

fn truncate(text: &str, width: usize) -> String {
    text.chars().take(width).collect()
}

fn pad(text: &str, width: usize) -> String {
    format!("{text:<width$}")
}

fn relative_time(timestamp_ms: u64, now_ms: u64) -> String {
    format!("{}s", now_ms.saturating_sub(timestamp_ms) / 1000)
}

fn age_seconds(timestamp_ms: u64, now_ms: u64) -> u64 {
    now_ms.saturating_sub(timestamp_ms) / 1000
}

fn iso_label(timestamp_ms: u64) -> String {
    match timestamp_ms {
        SENT_MS => "2026-06-25T00:00:00.000Z".to_owned(),
        NEXT_DAY_MS => "2026-06-26T00:00:00.000Z".to_owned(),
        NOW_MS => "2026-06-25T00:05:00.000Z".to_owned(),
        other => panic!("no label for {other}"),
    }
}

fn pick<'a>(messages: &'a [InboxMessage], target: Option<&str>) -> Option<&'a InboxMessage> {
    match target {
        None => messages.first(),
        Some(name) => match name.parse::<usize>() {
            Ok(row) => messages.get(row.wrapping_sub(1)),
            Err(_) => messages.iter().find(|message| message.filename.contains(name)),
        },
    }
}

fn mark(content: &str, now_ms: u64) -> String {
    content.replace("read: false", &format!("read: true\nreadAt: {now_ms}"))
}

fn file_text(message: &InboxMessage) -> String {
    format!(
        "---\nfrom: {}\nto: nova\ntimestamp: {}\nread: {}\n---\n\n{}\n",
        message.from,
        iso_label(message.timestamp_ms),
        message.read,
        message.body
    )
}

struct Disk {
    messages: Vec<InboxMessage>,
    texts: Vec<(String, String)>,
}

impl Disk {
    fn new(messages: Vec<InboxMessage>) -> Disk {
        let texts = messages.iter().map(|entry| (entry.path.clone(), file_text(entry))).collect();
        Disk { messages, texts }
    }

    fn text(&self, path: &str) -> String {
        self.texts.iter().find(|entry| entry.0 == path).expect("a file").1.clone()
    }

    fn store(&mut self, path: &str, text: String) {
        let entry = self.texts.iter_mut().find(|entry| entry.0 == path).expect("a file");
        entry.1 = text;
    }

    fn mark_read(&mut self, argv: &[String]) -> Result<String, String> {
        let mut state = inbox_begin_mark_read(argv)?;
        let found = pick(&self.messages, argv.first().map(String::as_str)).cloned();
        let path = found.as_ref().map(|entry| entry.path.clone()).unwrap_or_default();
        let mut event = InboxReadEvent::Found(Ok(found));
        loop {
            match inbox_run_mark_read(state, event, NOW_MS, &iso_label, &mark) {
                InboxReadAction::ReadFile { state: next } => {
                    state = next;
                    event = InboxReadEvent::Content(Ok(self.text(&path)));
                }
                InboxReadAction::WriteFile { state: next, text } => {
                    self.store(&path, text);
                    state = next;
                    event = InboxReadEvent::Written(Ok(()));
                }
                InboxReadAction::Finish { result } => return result,
            }
        }
    }

    fn run(&mut self, argv: &[String]) -> Result<String, String> {
        let wants_help = argv.first().is_some_and(|arg| arg == "--help");
        let (command, from) = match inbox_run_at(argv, wants_help)? {
            InboxRoute::Print { text } => return Ok(text),
            InboxRoute::Run { command, from } => (command, from),
        };
        let rest = &argv[from..];
        match command {
            InboxCommand::List => {
                inbox_run_list(
                    rest,
                    Ok(self.messages.clone()),
                    NOW_MS,
                    &truncate,
                    &pad,
                    &relative_time,
                )
            }
            InboxCommand::Show => {
                inbox_run_show(rest, Ok(self.messages.clone()), &pick, &iso_label)
            }
            InboxCommand::Read => self.mark_read(rest),
            InboxCommand::Write => match inbox_run_write(rest, &env(), true, "psi/inbox")? {
                InboxWriteAction::Print { text } => Ok(text),
                InboxWriteAction::WriteNote { from, to, note } => {
                    assert_eq!(from, "cli");
                    assert_eq!(to, "cli");
                    inbox_finish_write(Ok(format!("{from}-{}.md", note.replace(' ', "-"))))
                }
            },
            InboxCommand::Drain => self.drain(rest),
            other => panic!("not part of this suite: {other:?}"),
        }
    }

    fn drain(&mut self, argv: &[String]) -> Result<String, String> {
        assert!(inbox_drain_args_fit(argv));
        let options = inbox_begin_drain(argv, "nova")?;
        let json = options.json;
        let dry_run = options.dry_run;
        let mut run =
            inbox_drain_local(options, &env(), &self.messages, NOW_MS, &age_seconds, &iso_label);
        loop {
            match run.action() {
                InboxDrainAction::Probe { path } => {
                    run = run.go_on(InboxDrainEvent::Probed {
                        taken: false,
                        destination: path.names.join("/"),
                    });
                }
                InboxDrainAction::Move { source, .. } => {
                    assert!(!dry_run);
                    self.messages.retain(|entry| entry.path != source);
                    run = run.go_on(InboxDrainEvent::Moved(Ok(())));
                }
                InboxDrainAction::Fail { error } => return Err(error),
                InboxDrainAction::Report => break,
            }
        }
        let folder = run.folder_path().names.join("/");
        let report = run.report("nova", &folder);
        inbox_run_drain(
            json,
            Ok(report),
            |value: &InboxDrainResult| Ok(format!("{value:?}")),
            &|seconds: Option<u64>| format!("{}s", seconds.unwrap_or(0)),
        )
    }
}

#[test]
fn inbox_help_prints_usage_to_stdout_path() {
    let mut disk = Disk::new(Vec::new());

    let output = disk.run(&strings(&["--help"])).unwrap();

    assert_eq!(output, format!("usage: {INBOX_USAGE}\n"));
}

#[test]
fn inbox_list_show_read_and_write_are_hermetic() {
    let mut disk = Disk::new(vec![message(
        "2026-06-25_00-00_alice_ci.md",
        "alice",
        false,
        SENT_MS,
        "[alice] ci green confirmed",
    )]);
    let list = disk.run(&strings(&["--unread", "--from", "alice", "--last", "1"])).unwrap();
    assert!(list.contains("INBOX"));
    assert!(list.contains("alice"));
    let show = disk.run(&strings(&["show", "ci"])).unwrap();
    assert!(show.contains("ci green confirmed"));
    let read = disk.run(&strings(&["read", "ci"])).unwrap();
    assert!(read.contains("marked read"));
    let write = disk.run(&strings(&["write", "new", "note"])).unwrap();
    assert!(write.contains("wrote"));
}

#[test]
fn inbox_list_prints_stable_row_ids() {
    let mut disk = Disk::new(vec![
        message("2026-06-26_00-00_bob_new.md", "bob", true, NEXT_DAY_MS, "newer message"),
        message("2026-06-25_00-00_alice_old.md", "alice", false, SENT_MS, "older message"),
    ]);

    let list = disk.run(&strings(&["list"])).unwrap();

    assert!(list.contains("ID R FROM"), "{list}");
    assert!(list.contains("  1 \u{001b}[90m○\u{001b}[0m bob"), "{list}");
    assert!(list.contains("  2 \u{001b}[32m●\u{001b}[0m alice"), "{list}");

    let unread = disk.run(&strings(&["list", "--unread"])).unwrap();
    assert!(unread.contains("  2 \u{001b}[32m●\u{001b}[0m alice"), "{unread}");
    assert!(!unread.contains("bob"), "{unread}");
}

#[test]
fn inbox_read_row_id_prints_message_and_marks_read() {
    let mut disk = Disk::new(vec![
        message(
            "2026-06-26_00-00_bob_new.md",
            "bob",
            false,
            NEXT_DAY_MS,
            "first line\nsecond line with full body",
        ),
        message("2026-06-25_00-00_alice_old.md", "alice", false, SENT_MS, "older message"),
    ]);

    let read = disk.run(&strings(&["read", "1"])).unwrap();

    assert!(read.contains("2026-06-26_00-00_bob_new.md"), "{read}");
    assert!(read.contains("from: bob"), "{read}");
    assert!(read.contains("when: 2026-06-26T00:00:00.000Z"), "{read}");
    assert!(read.contains("first line\nsecond line with full body"), "{read}");
    assert!(read.contains("marked read: 2026-06-26_00-00_bob_new.md"), "{read}");
    let stored = disk.text("psi/inbox/2026-06-26_00-00_bob_new.md");
    assert!(stored.contains("read: true"), "{stored}");
    assert!(stored.contains("readAt:"), "{stored}");
    let old = disk.text("psi/inbox/2026-06-25_00-00_alice_old.md");
    assert!(old.contains("read: false"), "{old}");
}

#[test]
fn inbox_drain_safe_dry_run_matches_golden_shape() {
    let mut disk = Disk::new(vec![message(
        "2026-06-24_00-00_alice_ci.md",
        "alice",
        false,
        SENT_MS,
        "[alice] ci green confirmed",
    )]);
    let out = disk
        .run(&strings(&["drain", "--safe", "--dry-run", "--older-than-hours", "0"]))
        .unwrap();
    assert!(out.contains("nova: would archive 1/1 scanned inbox message"));
    assert!(out.contains("safe stale matches 1"));
    assert!(out.contains("ci-green"));
    assert!(disk.messages.iter().any(|entry| entry.filename == "2026-06-24_00-00_alice_ci.md"));
}

#[test]
fn inbox_drain_headline_exposes_nonempty_scanned_denominator_when_nothing_matches() {
    let mut messages: Vec<InboxMessage> = Vec::new();
    for index in 0..95 {
        messages.push(message(
            &format!("2026-06-24_00-00_alice-note-{index}.md"),
            "alice",
            false,
            SENT_MS,
            "ordinary message requiring review",
        ));
    }
    let mut disk = Disk::new(messages);

    let out = disk.run(&strings(&["drain", "--safe", "--dry-run"])).unwrap();

    assert!(out.contains("nova: would archive 0/95 scanned inbox message"));
    assert!(out.contains("safe stale matches 0"));
    assert!(out.contains("no messages matched the safe stale-ack filter"));
}

fn object(members: &[(&str, &str)]) -> serde_json::Value {
    let mut map = serde_json::Map::new();
    for (key, value) in members {
        map.insert((*key).to_owned(), serde_json::Value::String((*value).to_owned()));
    }
    serde_json::Value::Object(map)
}

#[test]
fn inbox_cwd_identity_overrides_global_oracle() {
    let config = object(&[("oracle", "epictetus"), ("node", "mac-mini")]);
    let first = inbox_env_from_config(&config, true, Some("epictetus"));
    let second = inbox_env_from_config(&config, true, Some("kakashi-oracle.wt-agent2"));
    assert_eq!(first.oracle, "epictetus");
    assert_eq!(second.oracle, "kakashi");
    assert_eq!(first.node, "mac-mini");
    assert_eq!(second.inbox_dir.root, InboxRoot::WorkingDir);
    assert_eq!(second.inbox_dir.names, strings(&["ψ", "inbox"]));
}

#[test]
fn inbox_explicit_psi_path_keeps_configured_oracle_identity() {
    let root = "/tmp/maw-inbox-test-explicit-psi";
    let config = object(&[
        ("oracle", "profile-oracle"),
        ("node", "mac-mini"),
        ("psiPath", &format!("{root}/shared-psi")),
    ]);

    let env = inbox_env_from_config(&config, false, Some("ignored-cwd"));

    assert_eq!(env.oracle, "profile-oracle");
    let base = match &env.inbox_dir.root {
        InboxRoot::Given(path) => std::path::PathBuf::from(path),
        other => panic!("{other:?}"),
    };
    let inbox_dir = env.inbox_dir.names.iter().fold(base, |path, name| path.join(name));
    assert_eq!(inbox_dir, std::path::Path::new(root).join("shared-psi/inbox"));
}

#[test]
fn inbox_approve_sends_flag_like_messages_as_opaque_text() {
    let cases = ["hello --approve", "hello --from=mallory:edge", "hello --trust", "-leading payload"];

    for body in cases {
        let hey = InboxSystemSender.inbox_request("bob", body, true).unwrap();
        assert_eq!(hey.query, "bob");
        assert_eq!(hey.message, body);
        assert!(hey.acl_bypass);
    }
}

#[test]
fn inbox_guards_reject_leading_dash_and_paths() {
    let mut disk = Disk::new(Vec::new());
    assert!(disk.run(&strings(&["--from", "-bad"])).is_err());
    assert!(disk.run(&strings(&["read", "../secret"])).is_err());
    assert!(disk.run(&strings(&["write", "-bad"])).is_err());
    assert!(disk.run(&strings(&["write", "--", "-ok"])).is_ok());
    assert_eq!(
        inbox_single_id_arg(&strings(&["../secret"]), "usage"),
        Err("inbox: invalid id".to_owned())
    );
}

#[test]
fn inbox_dispatch_is_native() {
    let dispatch = inbox_dispatch();
    assert_eq!(dispatch.len(), 1);
    assert_eq!(dispatch[0].command, "inbox");
}

#[test]
fn inbox_archive_lies_below_the_inbox() {
    let path = inbox_processed_dir(&env(), "2026-06-25");
    assert_eq!(path.root, InboxRoot::WorkingDir);
    assert_eq!(path.names, strings(&["psi", "inbox", "processed", "2026-06-25"]));
}
