//! A drain as it runs: one question to the file system at a time, and a report in the end.
use vstd::pervasive::unreached;
use vstd::prelude::*;

use crate::archive::{
    archive_name, inbox_archive_folder, inbox_unique_archive_path, is_folder, starts_search,
    InboxArchiveName,
};
use crate::config::{InboxEnv, InboxPath, PathRoot};
use crate::drain::{
    answers_alike, are_ages, by_age, by_age_sorts, capped, cases, inbox_drain_candidates, inbox_select_candidates,
    safe_reason, same_ages_same_stale, stale, stale_is_safe, takes_ages, what_is_taken_is_safe, DrainCase,
    InboxDrainCandidate,
};
use crate::drain_args::{DrainPlan, InboxDrainOptions};
use crate::model::InboxMessage;
use crate::show::takes_moments;
use crate::text::first_filled_line;

verus! {

/// What became of one message.
#[derive(Debug, Clone, PartialEq, Eq)]
pub struct InboxDrainItem {
    pub id: String,
    pub filename: String,
    pub reason: String,
    pub age_seconds: u64,
    pub destination: Option<String>,
    pub action: String,
}

/// The same, with texts as sequences of characters.
#[verifier::ext_equal]
pub struct ItemText {
    pub id: Seq<char>,
    pub filename: Seq<char>,
    pub reason: Seq<char>,
    pub age_seconds: u64,
    pub destination: Option<Seq<char>>,
    pub action: Seq<char>,
}

impl View for InboxDrainItem {
    type V = ItemText;

    open spec fn view(&self) -> ItemText {
        ItemText {
            id: self.id@,
            filename: self.filename@,
            reason: self.reason@,
            age_seconds: self.age_seconds,
            destination: match self.destination {
                Some(destination) => Some(destination@),
                None => None,
            },
            action: self.action@,
        }
    }
}

/// What a drain came to.
#[derive(Debug, Clone, PartialEq, Eq)]
pub struct InboxDrainResult {
    pub oracle: String,
    pub scanned: usize,
    pub matched: usize,
    pub archived: usize,
    pub remaining_matches: usize,
    pub max: usize,
    pub dry_run: bool,
    pub safe: bool,
    pub older_than_seconds: u64,
    pub processed_dir: String,
    pub items: Vec<InboxDrainItem>,
}

/// The item of a message that goes to `destination`.
pub open spec fn item_of(case: DrainCase, destination: Seq<char>, dry_run: bool) -> ItemText {
    ItemText {
        id: case.message.id@,
        filename: case.message.filename@,
        reason: case.reason,
        age_seconds: case.age_seconds,
        destination: Some(destination),
        action: if dry_run {
            "would_archive"@
        } else {
            "archived"@
        },
    }
}

/// The oracle that a drain reports: the one it was asked for, else the inbox's own.
pub open spec fn drained_oracle(plan: DrainPlan, oracle: Seq<char>) -> Seq<char> {
    match plan.oracle {
        Some(asked) => asked,
        None => oracle,
    }
}

/// Whether a report is that of a drain with these options, counts and items.
pub open spec fn is_report(
    result: InboxDrainResult,
    oracle: Seq<char>,
    plan: DrainPlan,
    matched: nat,
    scanned: nat,
    processed_dir: Seq<char>,
    items: Seq<InboxDrainItem>,
) -> bool {
    &&& result.oracle@ == drained_oracle(plan, oracle)
    &&& result.scanned == scanned
    &&& result.matched == matched
    &&& result.archived == items.len()
    &&& result.remaining_matches == if items.len() < matched {
        (matched - items.len()) as nat
    } else {
        0
    }
    &&& result.max == plan.max
    &&& result.dry_run == plan.dry_run
    &&& result.safe
    &&& result.older_than_seconds == plan.older_than_seconds
    &&& result.processed_dir@ == processed_dir
    &&& result.items@ == items
}

/// The item of a message that goes to `destination`, as it is shown.
pub fn inbox_drain_item(
    message: &InboxMessage,
    reason: &str,
    age: u64,
    destination: &str,
    dry_run: bool,
) -> (item: InboxDrainItem)
    ensures
        item@ == item_of(
            DrainCase { message: *message, reason: reason@, age_seconds: age },
            destination@,
            dry_run,
        ),
{
    InboxDrainItem {
        id: message.id.clone(),
        filename: message.filename.clone(),
        reason: reason.to_owned(),
        age_seconds: age,
        destination: Some(destination.to_owned()),
        action: if dry_run {
            "would_archive".to_owned()
        } else {
            "archived".to_owned()
        },
    }
}

/// The report of a drain.
pub fn inbox_drain_result(
    oracle: &str,
    options: &InboxDrainOptions,
    matched: usize,
    scanned: usize,
    processed_dir: &str,
    items: Vec<InboxDrainItem>,
) -> (result: InboxDrainResult)
    ensures
        is_report(
            result,
            oracle@,
            options@,
            matched as nat,
            scanned as nat,
            processed_dir@,
            items@,
        ),
{
    InboxDrainResult {
        oracle: match &options.oracle {
            Some(asked) => asked.clone(),
            None => oracle.to_owned(),
        },
        scanned,
        matched,
        archived: items.len(),
        remaining_matches: matched.saturating_sub(items.len()),
        max: options.max,
        dry_run: options.dry_run,
        safe: true,
        older_than_seconds: options.older_than_seconds,
        processed_dir: processed_dir.to_owned(),
        items,
    }
}

/// What a drain is waiting for.
#[derive(Debug, PartialEq, Eq)]
pub enum InboxDrainPhase {
    /// Word whether a name is taken in the archive.
    Probing(InboxArchiveName),
    /// Word that the message was moved into the folder under this name, which is shown as
    /// the destination.
    Moving { name: String, destination: String },
    /// Nothing: moving a message failed.
    Failed(String),
    /// Nothing: every selected message has its item.
    Done,
}

/// What came of the last step.
#[derive(Debug, PartialEq, Eq)]
pub enum InboxDrainEvent {
    /// Whether the path was taken, and how it is shown.
    Probed { taken: bool, destination: String },
    Moved(Result<(), String>),
}

/// What is to be done next.
#[derive(Debug, PartialEq, Eq)]
pub enum InboxDrainAction {
    /// Look whether this path is taken.
    Probe { path: InboxPath },
    /// Move the file that is shown as the source to this path, which is shown as the
    /// destination.
    Move { source: String, path: InboxPath, destination: String },
    /// Nothing more: moving a message failed.
    Fail { error: String },
    /// Nothing more: the drain can be reported.
    Report,
}

/// Whether a file of this name is tried under `name` in the archive.
pub open spec fn is_tried_name(name: Seq<char>, filename: Seq<char>) -> bool {
    exists|md: bool, tries: nat| name == #[trigger] archive_name(filename, md, tries)
}

/// A drain as it runs.
#[derive(Debug, PartialEq, Eq)]
pub struct InboxDrainRun {
    options: InboxDrainOptions,
    folder: InboxPath,
    scanned: usize,
    matched: usize,
    selected: Vec<InboxDrainCandidate>,
    items: Vec<InboxDrainItem>,
    phase: InboxDrainPhase,
}

impl InboxDrainRun {
    /// What the drain was asked to do.
    pub closed spec fn plan(self) -> DrainPlan {
        self.options@
    }

    /// The folder that the messages go into.
    pub closed spec fn folder(self) -> (PathRoot, Seq<Seq<char>>) {
        self.folder@
    }

    /// The path of a name in that folder.
    pub open spec fn path_of(self, name: Seq<char>) -> (PathRoot, Seq<Seq<char>>) {
        (self.folder().0, self.folder().1.push(name))
    }

    /// How many messages the inbox held.
    pub closed spec fn scanned(self) -> nat {
        self.scanned as nat
    }

    /// How many of them the drain might take.
    pub closed spec fn matched(self) -> nat {
        self.matched as nat
    }

    /// The messages that it takes, in this order.
    pub closed spec fn selected(self) -> Seq<DrainCase> {
        cases(self.selected@)
    }

    /// What became of the first of them.
    pub closed spec fn items(self) -> Seq<InboxDrainItem> {
        self.items@
    }

    /// What it waits for.
    pub closed spec fn phase(self) -> InboxDrainPhase {
        self.phase
    }

    /// The message whose turn it is.
    pub open spec fn current(self) -> DrainCase {
        self.selected()[self.items().len() as int]
    }

    /// What holds of a drain from its first step to its last: what it takes may be taken,
    /// is old enough, and stays below the cap; the messages before the current one have
    /// their items, in order; and a dry run is never about to move anything.
    pub open spec fn wf(self) -> bool {
        &&& self.selected().len() == if self.plan().max < self.matched() {
            self.plan().max
        } else {
            self.matched()
        }
        &&& self.matched() <= self.scanned()
        &&& forall|k: int|
            0 <= k < self.selected().len() ==> {
                let case = #[trigger] self.selected()[k];
                &&& safe_reason(case.message) == Some(case.reason)
                &&& case.age_seconds >= self.plan().older_than_seconds
            }
        &&& self.items().len() <= self.selected().len()
        &&& forall|k: int|
            0 <= k < self.items().len() ==> (#[trigger] self.items()[k]@.destination) is Some
                && self.items()[k]@ == item_of(
                self.selected()[k],
                self.items()[k]@.destination->0,
                self.plan().dry_run,
            )
        &&& self.phase() is Done <==> self.items().len() == self.selected().len()
        &&& self.plan().dry_run ==> self.phase() is Probing || self.phase() is Done
        &&& self.phase() matches InboxDrainPhase::Probing(search) ==> search.tries() + 2
            <= usize::MAX && search.filename() == self.current().message.filename@
        &&& self.phase() matches InboxDrainPhase::Moving { name, .. } ==> is_tried_name(
            name@,
            self.current().message.filename@,
        )
    }
}

/// A drain is seen as it is.
proof fn a_run_is_seen_whole(run: InboxDrainRun)
    ensures
        run.plan() == run.options@,
        run.folder() == run.folder@,
        run.scanned() == run.scanned,
        run.matched() == run.matched,
        run.selected().len() == run.selected@.len(),
        forall|k: int|
            0 <= k < run.selected@.len() ==> #[trigger] run.selected()[k] == run.selected@[k]@,
        run.items() == run.items@,
        run.phase() == run.phase,
{
}

/// Whether a drain has just turned to the message whose turn it is, or is done.
pub open spec fn turned(run: InboxDrainRun) -> bool {
    if run.items().len() < run.selected().len() {
        run.phase() matches InboxDrainPhase::Probing(search) && starts_search(
            search,
            run.current().message.filename@,
        )
    } else {
        run.phase() is Done
    }
}

/// Whether a drain is one of these messages: it takes the youngest of those that it may
/// take, up to its cap.
pub open spec fn drain_of<A: Fn(u64, u64) -> u64>(
    run: InboxDrainRun,
    messages: Seq<InboxMessage>,
    now_ms: u64,
    age_seconds: A,
) -> bool {
    let min_age = run.plan().older_than_seconds as u64;
    &&& run.scanned() == messages.len()
    &&& exists|ages: Seq<u64>|
        {
            &&& #[trigger] are_ages(ages, messages, now_ms, age_seconds)
            &&& run.matched() == stale(messages, ages, min_age).len()
            &&& run.selected() == capped(by_age(stale(messages, ages, min_age)), run.plan().max)
        }
}

/// Whether two drains take the same messages to the same folder with the same options.
pub open spec fn same_drain(a: InboxDrainRun, b: InboxDrainRun) -> bool {
    &&& a.plan() == b.plan()
    &&& a.folder() == b.folder()
    &&& a.scanned() == b.scanned()
    &&& a.matched() == b.matched()
    &&& a.selected() == b.selected()
}

/// Whether the event is the one that the drain waits for. A name that is taken has to leave
/// room for another number.
pub open spec fn drain_awaits(run: InboxDrainRun, event: InboxDrainEvent) -> bool {
    match run.phase() {
        InboxDrainPhase::Probing(search) => event matches InboxDrainEvent::Probed { taken, .. } && (
        taken ==> search.tries() + 3 <= usize::MAX),
        InboxDrainPhase::Moving { .. } => event is Moved,
        _ => false,
    }
}

/// Whether a drain that turns to the next message has the item of the last one.
pub open spec fn settled(
    before: InboxDrainRun,
    after: InboxDrainRun,
    destination: Seq<char>,
) -> bool {
    &&& after.items().len() == before.items().len() + 1
    &&& after.items().drop_last() == before.items()
    &&& after.items().last()@ == item_of(before.current(), destination, before.plan().dry_run)
    &&& turned(after)
}

/// Whether `after` is what the event makes of a drain: a taken name is followed by the next
/// one; at a free name a dry run settles the message, and another drain moves it; a message
/// that was moved is settled; and one that was not ends the drain.
pub open spec fn drain_moves_on(
    before: InboxDrainRun,
    event: InboxDrainEvent,
    after: InboxDrainRun,
) -> bool {
    &&& same_drain(before, after)
    &&& match (before.phase(), event) {
        (InboxDrainPhase::Probing(search), InboxDrainEvent::Probed { taken, destination }) => {
            if taken {
                &&& after.items() == before.items()
                &&& after.phase() matches InboxDrainPhase::Probing(next)
                &&& next.filename() == search.filename()
                &&& next.md() == search.md()
                &&& next.tries() == search.tries() + 1
            } else if before.plan().dry_run {
                settled(before, after, destination@)
            } else {
                &&& after.items() == before.items()
                &&& after.phase() matches InboxDrainPhase::Moving { name, destination: kept }
                &&& name@ == archive_name(search.filename(), search.md(), search.tries())
                &&& kept == destination
            }
        },
        (InboxDrainPhase::Moving { destination, .. }, InboxDrainEvent::Moved(came)) => match came {
            Ok(_) => settled(before, after, destination@),
            Err(error) => {
                &&& after.items() == before.items()
                &&& after.phase() matches InboxDrainPhase::Failed(told)
                &&& told@ == error@
            },
        },
        _ => false,
    }
}

/// Whether the action is the one that a drain's phase calls for.
pub open spec fn due(run: InboxDrainRun, action: InboxDrainAction) -> bool {
    match run.phase() {
        InboxDrainPhase::Probing(search) => action matches InboxDrainAction::Probe { path } && path@
            == run.path_of(archive_name(search.filename(), search.md(), search.tries())),
        InboxDrainPhase::Moving { name, destination } => action matches InboxDrainAction::Move {
            source,
            path,
            destination: shown,
        } && source@ == run.current().message.path@ && path@ == run.path_of(name@) && shown@
            == destination@,
        InboxDrainPhase::Failed(error) => action matches InboxDrainAction::Fail { error: told }
            && told@ == error@,
        InboxDrainPhase::Done => action is Report,
    }
}

/// A dry run never moves a file.
pub proof fn dry_run_moves_nothing(run: InboxDrainRun, action: InboxDrainAction)
    requires
        run.wf(),
        run.plan().dry_run,
        due(run, action),
    ensures
        !(action is Move),
{
}

/// A file is moved only to a path that was found free a step before, so nothing that lies in
/// the archive is written over; and the message that is moved is the one the path was sought
/// for.
pub proof fn only_free_paths_are_moved_to(
    before: InboxDrainRun,
    asked: InboxDrainAction,
    event: InboxDrainEvent,
    after: InboxDrainRun,
    action: InboxDrainAction,
)
    requires
        due(before, asked),
        drain_moves_on(before, event, after),
        due(after, action),
    ensures
        action matches InboxDrainAction::Move { source, path, destination } ==> {
            &&& asked matches InboxDrainAction::Probe { path: probed }
            &&& probed@ == path@
            &&& event matches InboxDrainEvent::Probed { taken, destination: free }
            &&& !taken
            &&& free@ == destination@
            &&& source@ == before.current().message.path@
        },
{
}

/// Everything that a drain looks at or moves to lies directly in its folder, under the name
/// of the message whose turn it is or a numbered one.
pub proof fn a_drain_stays_in_its_folder(run: InboxDrainRun, action: InboxDrainAction)
    requires
        run.wf(),
        due(run, action),
    ensures
        action matches InboxDrainAction::Probe { path } ==> exists|name: Seq<char>|
            path@ == run.path_of(name) && #[trigger] is_tried_name(
                name,
                run.current().message.filename@,
            ),
        action matches InboxDrainAction::Move { path, .. } ==> exists|name: Seq<char>|
            path@ == run.path_of(name) && #[trigger] is_tried_name(
                name,
                run.current().message.filename@,
            ),
{
    if let InboxDrainPhase::Probing(search) = run.phase() {
        assert(is_tried_name(
            archive_name(search.filename(), search.md(), search.tries()),
            run.current().message.filename@,
        ));
    }
}

/// A drain either tries another name for the message whose turn it is, or settles it, or
/// moves it, or ends: a message that has its item keeps it, and no message is passed over.
pub proof fn items_only_grow(before: InboxDrainRun, event: InboxDrainEvent, after: InboxDrainRun)
    requires
        drain_moves_on(before, event, after),
    ensures
        before.items().is_prefix_of(after.items()),
        after.items().len() <= before.items().len() + 1,
        after.items().len() == before.items().len() + 1 ==> after.items().last()@.filename
            == before.current().message.filename@,
        !before.plan().dry_run && after.items().len() > before.items().len() ==> (
        event matches InboxDrainEvent::Moved(came) && came is Ok),
{
    if after.items().len() == before.items().len() + 1 {
        assert(after.items().subrange(0, before.items().len() as int) =~= before.items());
    } else {
        assert(before.items().subrange(0, before.items().len() as int) =~= before.items());
    }
}

/// Whether some event makes `after` of a drain.
pub open spec fn leads_to(before: InboxDrainRun, after: InboxDrainRun) -> bool {
    exists|event: InboxDrainEvent| drain_moves_on(before, event, after)
}

/// Whether a drain went through these states, each led to by the one before it.
pub open spec fn is_course(runs: Seq<InboxDrainRun>) -> bool {
    &&& runs.len() > 0
    &&& forall|k: int| 0 <= k < runs.len() ==> (#[trigger] runs[k]).wf()
    &&& forall|k: int|
        0 <= k < runs.len() - 1 ==> leads_to(#[trigger] runs[k], runs[k + 1])
}

/// From its first state to its last, a drain takes the same messages to the same folder with
/// the same options.
pub proof fn a_course_keeps_its_drain(runs: Seq<InboxDrainRun>)
    requires
        is_course(runs),
    ensures
        same_drain(runs.first(), runs.last()),
    decreases runs.len(),
{
    if runs.len() > 1 {
        let front = runs.drop_last();
        assert forall|k: int| 0 <= k < front.len() - 1 implies leads_to(
            #[trigger] front[k],
            front[k + 1],
        ) by {
            assert(leads_to(runs[k], runs[k + 1]));
        }
        a_course_keeps_its_drain(front);
        let k = runs.len() - 2;
        assert(front.last() == runs[k]);
        assert(leads_to(runs[k], runs[k + 1]));
    }
}

/// A dry run reports what the same drain takes when it archives: of the same inbox at the
/// same moment, both match and take the same messages in the same order, and their reports
/// agree but for where each message goes and what was done with it. The two may have found
/// different names taken in the archive.
pub proof fn a_dry_run_reports_what_would_be_taken<A: Fn(u64, u64) -> u64>(
    messages: Seq<InboxMessage>,
    now_ms: u64,
    age_seconds: A,
    dry: Seq<InboxDrainRun>,
    full: Seq<InboxDrainRun>,
    oracle: Seq<char>,
    dir: Seq<char>,
    previewed: InboxDrainResult,
    archived: InboxDrainResult,
)
    requires
        answers_alike(age_seconds),
        is_course(dry),
        is_course(full),
        drain_of(dry.first(), messages, now_ms, age_seconds),
        drain_of(full.first(), messages, now_ms, age_seconds),
        dry.first().plan() == (DrainPlan { dry_run: true, ..full.first().plan() }),
        dry.last().phase() is Done,
        full.last().phase() is Done,
        is_report(
            previewed,
            oracle,
            dry.last().plan(),
            dry.last().matched(),
            dry.last().scanned(),
            dir,
            dry.last().items(),
        ),
        is_report(
            archived,
            oracle,
            full.last().plan(),
            full.last().matched(),
            full.last().scanned(),
            dir,
            full.last().items(),
        ),
    ensures
        dry.first().matched() == full.first().matched(),
        dry.first().selected() == full.first().selected(),
        previewed.oracle@ == archived.oracle@,
        previewed.scanned == archived.scanned,
        previewed.matched == archived.matched,
        previewed.archived == archived.archived,
        previewed.remaining_matches == archived.remaining_matches,
        previewed.max == archived.max,
        previewed.older_than_seconds == archived.older_than_seconds,
        previewed.processed_dir@ == archived.processed_dir@,
        previewed.items@.len() == archived.items@.len(),
        forall|k: int|
            0 <= k < previewed.items@.len() ==> {
                let seen = #[trigger] previewed.items@[k]@;
                let taken = archived.items@[k]@;
                &&& seen.id == taken.id
                &&& seen.filename == taken.filename
                &&& seen.reason == taken.reason
                &&& seen.age_seconds == taken.age_seconds
            },
{
    let a = dry.first();
    let b = full.first();
    let min_age = a.plan().older_than_seconds as u64;
    let ages = choose|ages: Seq<u64>|
        {
            &&& #[trigger] are_ages(ages, messages, now_ms, age_seconds)
            &&& a.matched() == stale(messages, ages, min_age).len()
            &&& a.selected() == capped(by_age(stale(messages, ages, min_age)), a.plan().max)
        };
    let others = choose|ages: Seq<u64>|
        {
            &&& #[trigger] are_ages(ages, messages, now_ms, age_seconds)
            &&& b.matched() == stale(messages, ages, min_age).len()
            &&& b.selected() == capped(by_age(stale(messages, ages, min_age)), b.plan().max)
        };
    same_ages_same_stale(messages, now_ms, age_seconds, ages, others, min_age);
    a_course_keeps_its_drain(dry);
    a_course_keeps_its_drain(full);
    assert(dry[dry.len() - 1].wf() && full[full.len() - 1].wf());
    assert forall|k: int| 0 <= k < previewed.items@.len() implies {
        let seen = #[trigger] previewed.items@[k]@;
        let taken = archived.items@[k]@;
        &&& seen.id == taken.id
        &&& seen.filename == taken.filename
        &&& seen.reason == taken.reason
        &&& seen.age_seconds == taken.age_seconds
    } by {
        assert(dry.last().items()[k]@.destination is Some);
        assert(full.last().items()[k]@.destination is Some);
    }
}

/// What a drain moves is always a message that may be drained unseen, asks nothing in its
/// first line, and is as old as was asked for.
pub proof fn only_stale_reports_are_moved(run: InboxDrainRun, action: InboxDrainAction)
    requires
        run.wf(),
        due(run, action),
    ensures
        action matches InboxDrainAction::Move { source, .. } ==> exists|k: int|
            {
                &&& 0 <= k < run.selected().len()
                &&& (#[trigger] run.selected()[k]).message.path@ == source@
                &&& safe_reason(run.selected()[k].message) == Some(run.selected()[k].reason)
                &&& run.selected()[k].age_seconds >= run.plan().older_than_seconds
                &&& first_filled_line(run.selected()[k].message.body@) matches Some(line)
                &&& !line.contains('?')
            },
{
    if action is Move {
        let k = run.items().len() as int;
        assert(run.selected()[k] == run.current());
    }
}

/// A drain that is done has an item for every message that it took, in the order it took
/// them, never more than the cap, and counts every match as either taken or remaining.
pub proof fn finished_drain_adds_up(
    run: InboxDrainRun,
    result: InboxDrainResult,
    oracle: Seq<char>,
    dir: Seq<char>,
)
    requires
        run.wf(),
        run.phase() is Done,
        is_report(result, oracle, run.plan(), run.matched(), run.scanned(), dir, run.items()),
    ensures
        result.archived <= result.max,
        result.archived + result.remaining_matches == result.matched,
        result.matched <= result.scanned,
        result.remaining_matches > 0 ==> result.archived == result.max,
        forall|k: int|
            0 <= k < result.items@.len() ==> {
                let item = #[trigger] result.items@[k]@;
                &&& item.filename == run.selected()[k].message.filename@
                &&& item.reason == run.selected()[k].reason
                &&& item.action == if run.plan().dry_run {
                    "would_archive"@
                } else {
                    "archived"@
                }
            },
{
    assert forall|k: int| 0 <= k < result.items@.len() implies {
        let item = #[trigger] result.items@[k]@;
        &&& item.filename == run.selected()[k].message.filename@
        &&& item.reason == run.selected()[k].reason
        &&& item.action == if run.plan().dry_run {
            "would_archive"@
        } else {
            "archived"@
        }
    } by {
        assert(run.items()[k]@.destination is Some);
    }
}

/// The phase of a drain that turns to the message behind its items.
fn turn(selected: &Vec<InboxDrainCandidate>, items: &Vec<InboxDrainItem>) -> (phase:
    InboxDrainPhase)
    requires
        items@.len() <= selected@.len(),
    ensures
        if items@.len() < selected@.len() {
            phase matches InboxDrainPhase::Probing(search) && starts_search(
                search,
                selected@[items@.len() as int].message.filename@,
            )
        } else {
            phase is Done
        },
{
    if items.len() < selected.len() {
        InboxDrainPhase::Probing(
            inbox_unique_archive_path(selected[items.len()].message.filename.as_str()),
        )
    } else {
        InboxDrainPhase::Done
    }
}

/// Selects what a drain takes of the inbox's messages, finds the folder that it goes into, and
/// turns to the first message.
pub fn inbox_drain_local<A: Fn(u64, u64) -> u64, I: Fn(u64) -> String>(
    options: InboxDrainOptions,
    env: &InboxEnv,
    messages: &[InboxMessage],
    now_ms: u64,
    age_seconds: &A,
    iso_label: &I,
) -> (run: InboxDrainRun)
    requires
        takes_ages(*age_seconds),
        takes_moments(*iso_label),
    ensures
        run.wf(),
        run.plan() == options@,
        is_folder(run.folder(), *env, now_ms, *iso_label),
        drain_of(run, messages@, now_ms, *age_seconds),
        run.items().len() == 0,
        turned(run),
{
    let candidates = inbox_drain_candidates(
        messages,
        now_ms,
        options.older_than_seconds,
        age_seconds,
    );
    let matched: usize = candidates.len();
    let ghost all = cases(candidates@);
    let selected = inbox_select_candidates(candidates, options.max);
    let items: Vec<InboxDrainItem> = Vec::new();
    let phase = turn(&selected, &items);
    let scanned: usize = messages.len();
    let folder = inbox_archive_folder(env, now_ms, iso_label);
    proof {
        let ages = choose|ages: Seq<u64>|
            #[trigger] are_ages(ages, messages@, now_ms, *age_seconds) && all == stale(
                messages@,
                ages,
                options.older_than_seconds,
            );
        stale_is_safe(messages@, ages, options.older_than_seconds);
        by_age_sorts(all);
        what_is_taken_is_safe(messages@, ages, options.older_than_seconds, options.max as nat);
        assert(cases(selected@).len() == selected@.len());
    }
    InboxDrainRun { options, folder, scanned, matched, selected, items, phase }
}

impl InboxDrainRun {
    /// What is to be done next.
    pub fn action(&self) -> (action: InboxDrainAction)
        requires
            self.wf(),
        ensures
            due(*self, action),
    {
        match &self.phase {
            InboxDrainPhase::Probing(search) => InboxDrainAction::Probe {
                path: self.folder.clone().join(search.name().as_str()),
            },
            InboxDrainPhase::Moving { name, destination } => {
                assert(self.selected@.len() == self.selected().len());
                assert(self.selected()[self.items@.len() as int]
                    == self.selected@[self.items@.len() as int]@);
                InboxDrainAction::Move {
                    source: self.selected[self.items.len()].message.path.clone(),
                    path: self.folder.clone().join(name.as_str()),
                    destination: destination.clone(),
                }
            },
            InboxDrainPhase::Failed(error) => InboxDrainAction::Fail { error: error.clone() },
            InboxDrainPhase::Done => InboxDrainAction::Report,
        }
    }

    /// The folder that the messages go into.
    pub fn folder_path(&self) -> (path: InboxPath)
        ensures
            path@ == self.folder(),
    {
        self.folder.clone()
    }

    /// The message whose turn it is, if there is one.
    pub fn current_message(&self) -> (message: Option<&InboxMessage>)
        requires
            self.wf(),
        ensures
            match message {
                Some(message) => self.items().len() < self.selected().len() && *message
                    == self.current().message,
                None => self.items().len() == self.selected().len(),
            },
    {
        assert(self.selected@.len() == self.selected().len());
        if self.items.len() < self.selected.len() {
            assert(self.selected()[self.items@.len() as int]
                == self.selected@[self.items@.len() as int]@);
            Some(&self.selected[self.items.len()].message)
        } else {
            None
        }
    }

    /// Whether the drain could try another name after the one it asks about.
    pub fn can_go_on(&self) -> (can: bool)
        ensures
            can == (self.phase() matches InboxDrainPhase::Probing(search) ==> search.tries() + 3
                <= usize::MAX),
    {
        match &self.phase {
            InboxDrainPhase::Probing(search) => search.can_go_on(),
            _ => true,
        }
    }

    /// Puts the item of the current message behind the others and turns to the next one.
    fn settle(self, destination: &str) -> (after: Self)
        requires
            self.wf(),
            self.items().len() < self.selected().len(),
        ensures
            after.wf(),
            same_drain(self, after),
            settled(self, after, destination@),
    {
        let InboxDrainRun { options, folder, scanned, matched, selected, mut items, phase } = self;
        let ghost before = items@;
        assert(selected@.len() == cases(selected@).len());
        let candidate = &selected[items.len()];
        assert(candidate@ == cases(selected@)[before.len() as int]);
        let item = inbox_drain_item(
            &candidate.message,
            candidate.reason.as_str(),
            candidate.age_seconds,
            destination,
            options.dry_run,
        );
        items.push(item);
        assert(items@.drop_last() =~= before);
        let phase = turn(&selected, &items);
        let after = InboxDrainRun { options, folder, scanned, matched, selected, items, phase };
        proof {
            assert(after.selected() == self.selected());
            assert forall|k: int| 0 <= k < after.items().len() implies (
            #[trigger] after.items()[k]@.destination) is Some && after.items()[k]@ == item_of(
                after.selected()[k],
                after.items()[k]@.destination->0,
                after.plan().dry_run,
            ) by {
                if k < before.len() {
                    assert(after.items()[k] == self.items()[k]);
                }
            }
            if after.items().len() < after.selected().len() {
                assert(after.current() == after.selected@[after.items().len() as int]@);
            }
        }
        after
    }

    /// Goes on with what came of the last step.
    pub fn go_on(self, event: InboxDrainEvent) -> (after: Self)
        requires
            self.wf(),
            drain_awaits(self, event),
        ensures
            after.wf(),
            drain_moves_on(self, event, after),
    {
        let InboxDrainRun { options, folder, scanned, matched, selected, items, phase } = self;
        match (phase, event) {
            (InboxDrainPhase::Probing(search), InboxDrainEvent::Probed { taken, destination }) => {
                let dry_run = options.dry_run;
                if taken {
                    let phase = InboxDrainPhase::Probing(search.go_on());
                    InboxDrainRun { options, folder, scanned, matched, selected, items, phase }
                } else if dry_run {
                    let phase = InboxDrainPhase::Probing(search);
                    InboxDrainRun { options, folder, scanned, matched, selected, items, phase }.settle(
                        destination.as_str(),
                    )
                } else {
                    let name = search.name();
                    assert(is_tried_name(name@, search.filename()));
                    let phase = InboxDrainPhase::Moving { name, destination };
                    InboxDrainRun { options, folder, scanned, matched, selected, items, phase }
                }
            },
            (InboxDrainPhase::Moving { name, destination }, InboxDrainEvent::Moved(came)) => match came {
                Ok(_) => {
                    let shown = destination.clone();
                    let phase = InboxDrainPhase::Moving { name, destination };
                    InboxDrainRun { options, folder, scanned, matched, selected, items, phase }.settle(
                        shown.as_str(),
                    )
                },
                Err(error) => {
                    let phase = InboxDrainPhase::Failed(error);
                    InboxDrainRun { options, folder, scanned, matched, selected, items, phase }
                },
            },
            _ => unreached(),
        }
    }

    /// The report of a drain that is done.
    pub fn report(self, oracle: &str, processed_dir: &str) -> (result: InboxDrainResult)
        requires
            self.wf(),
            self.phase() is Done,
        ensures
            is_report(
                result,
                oracle@,
                self.plan(),
                self.matched(),
                self.scanned(),
                processed_dir@,
                self.items(),
            ),
    {
        let InboxDrainRun { options, folder, scanned, matched, items, .. } = self;
        inbox_drain_result(oracle, &options, matched, scanned, processed_dir, items)
    }
}

} // verus!
