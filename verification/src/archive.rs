//! The archive: the day's folder, a name that is still free, and when it was last added to.
use vstd::prelude::*;
use vstd::utf8::{decode_utf8, encode_utf8, is_ascii_chars, is_char_boundary};

use crate::config::{inbox_processed_dir, processed_place, InboxEnv, InboxPath, PathRoot};
use crate::decimal::{decimal, decimal_tells_apart, decimal_text};
use crate::show::{labels, takes_moments};
use crate::text::{ascii_lower, chars_of, outcome, strip_tail, without_tail};

verus! {

/// The day that a moment's label begins with: its first ten bytes, if they are whole
/// characters, else the first day of 1970.
pub open spec fn day_of(label: Seq<char>) -> Seq<char> {
    if is_char_boundary(encode_utf8(label), 10) {
        decode_utf8(encode_utf8(label).subrange(0, 10))
    } else {
        "1970-01-01"@
    }
}

/// Of a label in plain ASCII the day is its first ten characters.
pub proof fn ascii_label_gives_its_date(label: Seq<char>)
    requires
        is_ascii_chars(label),
        label.len() >= 10,
    ensures
        day_of(label) == label.take(10),
{
    broadcast use vstd::utf8::group_utf8_lib;

    let bytes = encode_utf8(label);
    let date = label.take(10);
    vstd::utf8::is_ascii_chars_encode_utf8(label);
    assert(is_ascii_chars(date));
    vstd::utf8::is_ascii_chars_encode_utf8(date);
    assert(encode_utf8(date) =~= bytes.subrange(0, 10));
    vstd::utf8::encode_utf8_valid_utf8(label);
    if bytes.len() > 10 {
        assert(label[10] as u8 == bytes[10]);
        assert(bytes[10] < 128);
        vstd::utf8::is_char_boundary_iff_not_is_continuation_byte(bytes, 10);
    } else {
        vstd::utf8::is_char_boundary_start_end_of_seq(bytes);
    }
    vstd::utf8::encode_utf8_decode_utf8(date);
}

/// The name of the folder that today's archive goes into.
pub fn inbox_archive_day<I: Fn(u64) -> String>(now_ms: u64, iso_label: &I) -> (day: String)
    requires
        takes_moments(*iso_label),
    ensures
        exists|label: Seq<char>|
            #[trigger] labels(*iso_label, now_ms, label) && day@ == day_of(label),
{
    let label = iso_label(now_ms);
    assert(labels(*iso_label, now_ms, label@));
    let text = label.as_str();
    if text.is_char_boundary(10) {
        let (day, _) = text.split_at(10);
        proof {
            vstd::utf8::encode_utf8_decode_utf8(day@);
        }
        day.to_owned()
    } else {
        "1970-01-01".to_owned()
    }
}

/// Whether a path is that of the folder that the archive of a moment goes into.
pub open spec fn is_folder<I: Fn(u64) -> String>(
    path: (PathRoot, Seq<Seq<char>>),
    env: InboxEnv,
    now_ms: u64,
    iso_label: I,
) -> bool {
    exists|label: Seq<char>|
        #[trigger] labels(iso_label, now_ms, label) && path == processed_place(env, day_of(label))
}

/// The folder that the archive of a moment goes into: `processed` below the inbox, and the
/// moment's day below that.
pub fn inbox_archive_folder<I: Fn(u64) -> String>(env: &InboxEnv, now_ms: u64, iso_label: &I) -> (
    path: InboxPath)
    requires
        takes_moments(*iso_label),
    ensures
        is_folder(path@, *env, now_ms, *iso_label),
{
    let day = inbox_archive_day(now_ms, iso_label);
    inbox_processed_dir(env, day.as_str())
}

/// Where the last dot of a name stands.
pub open spec fn last_dot(name: Seq<char>) -> Option<int>
    decreases name.len(),
{
    if name.len() == 0 {
        None
    } else if name.last() == '.' {
        Some(name.len() - 1)
    } else {
        last_dot(name.drop_last())
    }
}

/// Whether a name begins with a drive: a letter and a colon.
pub open spec fn has_drive(name: Seq<char>) -> bool {
    name.len() >= 2 && ('a' <= ascii_lower(name[0]) <= 'z') && name[1] == ':'
}

/// Whether a name is a plain file name on every system: no separator, and no drive before it.
pub open spec fn is_plain_name(name: Seq<char>) -> bool {
    !name.contains('/') && !name.contains('\\') && !has_drive(name)
}

/// Whether every system finds the same extension in a name that some of them take apart: one
/// without a dot has none anywhere; else what stands behind the last dot is no empty text and
/// holds no separator, and what stands directly before that dot belongs to a file name.
pub open spec fn is_common_name(name: Seq<char>) -> bool {
    match last_dot(name) {
        None => true,
        Some(at) => {
            &&& !name.contains('/')
            &&& name[0] != '\\'
            &&& 0 < at < name.len() - 1
            &&& !name.skip(at + 1).contains('\\')
            &&& name[at - 1] != '\\' && name[at - 1] != ':'
        },
    }
}

/// Whether the extension of a name is the same on every system.
pub open spec fn has_sure_extension(name: Seq<char>) -> bool {
    is_plain_name(name) || is_common_name(name)
}

/// The extension of such a name: what stands behind its last dot, unless that dot is the
/// first character.
pub open spec fn name_extension(name: Seq<char>) -> Option<Seq<char>> {
    match last_dot(name) {
        Some(at) if at > 0 && name != ".."@ => Some(name.skip(at + 1)),
        _ => None,
    }
}

/// `Path::extension` of a file name is what stands behind its last dot; a name without a dot,
/// or with none but the first character, has none, and neither has `..`. A text that some
/// systems take apart into several names has the extension of the last of them: that is the
/// same wherever the last dot stands within that name and is not its first character. Of a
/// text on which the systems differ nothing is claimed.
#[verifier::external_body]
fn extension_of(name: &str) -> (extension: Option<String>)
    ensures
        has_sure_extension(name@) ==> match extension {
            Some(extension) => name_extension(name@) == Some(extension@),
            None => name_extension(name@) is None,
        },
{
    std::path::Path::new(name).extension().and_then(|extension| extension.to_str()).map(
        |extension| extension.to_owned(),
    )
}

/// A name that ends with `.md` has that extension on every system, as long as it holds no
/// `/`, does not begin with a backslash, and neither a backslash nor a colon stands directly
/// before that ending.
pub proof fn md_names_are_sure(stem: Seq<char>)
    requires
        stem.len() > 0,
        !stem.contains('/'),
        stem.first() != '\\',
        stem.last() != '\\',
        stem.last() != ':',
    ensures
        has_sure_extension(stem + ".md"@),
        name_extension(stem + ".md"@) == Some("md"@),
        is_md("md"@),
        without_tail(stem + ".md"@, ".md"@) == stem,
{
    reveal_strlit(".md");
    reveal_strlit("md");
    reveal_strlit("..");
    reveal_with_fuel(last_dot, 4);
    let name = stem + ".md"@;
    assert(name.drop_last().drop_last() =~= stem.push('.'));
    assert(last_dot(name) == Some(stem.len() as int));
    assert(name.skip(stem.len() as int + 1) =~= "md"@);
    assert(name[stem.len() - 1] == stem.last());
    if name.contains('/') {
        let at = name.index_of('/');
        assert(at < stem.len() ==> stem[at] == '/');
    }
    assert(!"md"@.contains('\\'));
    assert(name.subrange(stem.len() as int, name.len() as int) =~= ".md"@);
    assert(name.take(stem.len() as int) =~= stem);
}

/// Whether an extension is `md` in any case.
pub open spec fn is_md(extension: Seq<char>) -> bool {
    extension.len() == 2 && ascii_lower(extension[0]) == 'm' && ascii_lower(extension[1]) == 'd'
}

/// The name that a file is tried under in the archive after `tries` names were taken: its
/// own, then its stem with 2, 3 and so on.
pub open spec fn archive_name(filename: Seq<char>, md: bool, tries: nat) -> Seq<char> {
    if tries == 0 {
        filename
    } else {
        without_tail(filename, ".md"@) + "-"@ + decimal(tries + 1) + if md {
            ".md"@
        } else {
            Seq::empty()
        }
    }
}

/// The names that a file is tried under are all different.
pub proof fn archive_names_differ(filename: Seq<char>, md: bool, a: nat, b: nat)
    requires
        a != b,
    ensures
        archive_name(filename, md, a) != archive_name(filename, md, b),
{
    if a == 0 {
        numbered_name_is_new(filename, md, b);
    } else if b == 0 {
        numbered_name_is_new(filename, md, a);
    } else if archive_name(filename, md, a) == archive_name(filename, md, b) {
        reveal_strlit("-");
        reveal_strlit(".md");
        let stem = without_tail(filename, ".md"@);
        let name = archive_name(filename, md, a);
        let from = stem.len() + 1;
        let to = name.len() - if md {
            3int
        } else {
            0
        };
        assert(name.subrange(from as int, to) =~= decimal(a + 1));
        assert(archive_name(filename, md, b).subrange(from as int, to) =~= decimal(b + 1));
        decimal_tells_apart(a + 1, b + 1);
    }
}

proof fn numbered_name_is_new(filename: Seq<char>, md: bool, tries: nat)
    requires
        tries > 0,
    ensures
        archive_name(filename, md, tries) != filename,
{
    reveal_strlit("-");
    reveal_strlit(".md");
    let stem = without_tail(filename, ".md"@);
    let name = archive_name(filename, md, tries);
    assert(name[stem.len() as int] == '-');
    if stem.len() < filename.len() {
        assert(filename.subrange(stem.len() as int, filename.len() as int) =~= ".md"@);
        assert(filename[stem.len() as int] == filename.subrange(
            stem.len() as int,
            filename.len() as int,
        )[0]);
    }
}

proof fn tried_names_fill_the_archive(
    filename: Seq<char>,
    md: bool,
    taken: Set<Seq<char>>,
    tries: nat,
)
    requires
        taken.finite(),
        forall|t: nat| t < tries ==> taken.contains(#[trigger] archive_name(filename, md, t)),
    ensures
        taken.len() >= tries,
    decreases tries,
{
    if tries > 0 {
        let last = archive_name(filename, md, (tries - 1) as nat);
        let others = taken.remove(last);
        assert forall|t: nat| t < tries - 1 implies others.contains(
            #[trigger] archive_name(filename, md, t),
        ) by {
            archive_names_differ(filename, md, t, (tries - 1) as nat);
        }
        tried_names_fill_the_archive(filename, md, others, (tries - 1) as nat);
        assert(taken.contains(last));
    }
}

/// The search ends: with so many names taken, one more try than that finds a free one.
pub proof fn a_free_name_is_found(filename: Seq<char>, md: bool, taken: Set<Seq<char>>)
    requires
        taken.finite(),
    ensures
        exists|tries: nat|
            tries <= taken.len() && !taken.contains(#[trigger] archive_name(filename, md, tries)),
{
    if forall|t: nat|
        t <= taken.len() ==> taken.contains(#[trigger] archive_name(filename, md, t)) {
        tried_names_fill_the_archive(filename, md, taken, taken.len() + 1);
    }
}

/// The search for a name that is free in the archive.
#[derive(Debug, PartialEq, Eq)]
pub struct InboxArchiveName {
    filename: String,
    md: bool,
    tries: usize,
}

impl InboxArchiveName {
    /// The name of the file that is to be archived.
    pub closed spec fn filename(self) -> Seq<char> {
        self.filename@
    }

    /// Whether the names that are tried end with `.md`.
    pub closed spec fn md(self) -> bool {
        self.md
    }

    /// How many names were taken so far.
    pub closed spec fn tries(self) -> nat {
        self.tries as nat
    }

    /// The search's beginning, with the extension that the file's name has.
    pub fn start(filename: &str, extension: Option<&str>) -> (search: Self)
        ensures
            search.filename() == filename@,
            search.md() == match extension {
                Some(extension) => is_md(extension@),
                None => false,
            },
            search.tries() == 0,
    {
        let md = match extension {
            Some(extension) => {
                let chars = chars_of(extension);
                chars.len() == 2 && (chars[0] == 'm' || chars[0] == 'M') && (chars[1] == 'd'
                    || chars[1] == 'D')
            },
            None => false,
        };
        InboxArchiveName { filename: filename.to_owned(), md, tries: 0 }
    }

    /// The name to try.
    pub fn name(&self) -> (name: String)
        requires
            self.tries() < usize::MAX,
        ensures
            name@ == archive_name(self.filename(), self.md(), self.tries()),
    {
        if self.tries == 0 {
            return self.filename.clone();
        }
        let mut name = strip_tail(self.filename.as_str(), ".md").to_owned();
        name.append("-");
        name.append(decimal_text(self.tries as u64 + 1).as_str());
        if self.md {
            name.append(".md");
        }
        assert(name@ =~= archive_name(self.filename(), self.md(), self.tries()));
        name
    }

    /// Whether another name can be tried: the number behind the stem is a machine word.
    pub fn can_go_on(&self) -> (can: bool)
        ensures
            can == (self.tries() + 3 <= usize::MAX),
    {
        self.tries <= usize::MAX - 3
    }

    /// Goes on to the next name.
    pub fn go_on(self) -> (next: Self)
        requires
            self.tries() + 3 <= usize::MAX,
        ensures
            next.filename() == self.filename(),
            next.md() == self.md(),
            next.tries() == self.tries() + 1,
    {
        InboxArchiveName { tries: self.tries + 1, ..self }
    }
}

/// A search is seen as it is.
proof fn a_search_is_seen_whole(search: InboxArchiveName)
    ensures
        search.filename() == search.filename@,
        search.md() == search.md,
        search.tries() == search.tries,
{
}

/// Whether a search is at its beginning for this file name.
pub open spec fn starts_search(search: InboxArchiveName, filename: Seq<char>) -> bool {
    &&& search.filename() == filename
    &&& search.tries() == 0
    &&& has_sure_extension(filename) ==> search.md() == match name_extension(filename) {
        Some(extension) => is_md(extension),
        None => false,
    }
}

/// Begins the search for a name in the archive that is free for this file. The caller looks
/// whether the name is taken, and goes on as long as it is.
pub fn inbox_unique_archive_path(filename: &str) -> (search: InboxArchiveName)
    ensures
        starts_search(search, filename@),
{
    match extension_of(filename) {
        Some(extension) => InboxArchiveName::start(filename, Some(extension.as_str())),
        None => InboxArchiveName::start(filename, None),
    }
}

/// What came of moving a file into the archive.
#[derive(Debug, PartialEq, Eq)]
pub enum InboxMove {
    /// The archive's folder could not be made.
    NoFolder { folder: String, error: String },
    /// The folder is there, but the file could not be moved.
    NotMoved { error: String },
    Moved,
}

/// What an attempt to archive a file is answered.
pub open spec fn move_answer(
    source: Seq<char>,
    destination: Seq<char>,
    came: InboxMove,
) -> Result<(), Seq<char>> {
    match came {
        InboxMove::NoFolder { folder, error } => Err("inbox: create "@ + folder@ + ": "@ + error@),
        InboxMove::NotMoved { error } => Err(
            "inbox: archive "@ + source + " -> "@ + destination + ": "@ + error@,
        ),
        InboxMove::Moved => Ok(()),
    }
}

/// Turns what came of moving a file into the answer, with the paths as they are shown.
pub fn inbox_archive_message(source: &str, destination: &str, came: InboxMove) -> (result: Result<
    (),
    String,
>)
    ensures
        outcome(result) == move_answer(source@, destination@, came),
{
    match came {
        InboxMove::NoFolder { folder, error } => {
            Err(
                "inbox: create ".to_owned().concat(folder.as_str()).concat(": ").concat(
                    error.as_str(),
                ),
            )
        },
        InboxMove::NotMoved { error } => {
            Err(
                "inbox: archive ".to_owned().concat(source).concat(" -> ").concat(
                    destination,
                ).concat(": ").concat(error.as_str()),
            )
        },
        InboxMove::Moved => Ok(()),
    }
}

/// The later of a moment and the latest so far.
pub open spec fn later(latest: Option<u64>, ms: u64) -> Option<u64> {
    match latest {
        Some(old) if old > ms => Some(old),
        _ => Some(ms),
    }
}

/// The latest of the moments from `at` on and one from before, and the first error, which
/// ends the search.
pub open spec fn latest_from(
    files: Seq<Result<u64, String>>,
    at: int,
    latest: Option<u64>,
) -> (Option<u64>, Option<Seq<char>>)
    decreases files.len() - at,
{
    if at < 0 || at >= files.len() {
        (latest, None)
    } else {
        match files[at] {
            Ok(ms) => latest_from(files, at + 1, later(latest, ms)),
            Err(error) => (latest, Some(error@)),
        }
    }
}

/// The latest moment found is one of those there were, or the one from before, and none of
/// them is later.
pub proof fn latest_is_the_greatest(
    files: Seq<Result<u64, String>>,
    at: int,
    latest: Option<u64>,
)
    requires
        0 <= at,
        forall|i: int| at <= i < files.len() ==> #[trigger] files[i] is Ok,
    ensures
        latest_from(files, at, latest).1 is None,
        forall|i: int|
            at <= i < files.len() ==> (latest_from(files, at, latest).0 matches Some(found)
                && found >= (#[trigger] files[i])->Ok_0),
        latest matches Some(old) ==> (latest_from(files, at, latest).0 matches Some(found) && found
            >= old),
        latest_from(files, at, latest).0 == latest || exists|i: int|
            at <= i < files.len() && latest_from(files, at, latest).0 == Some(
                (#[trigger] files[i])->Ok_0,
            ),
    decreases files.len() - at,
{
    if at < files.len() {
        assert(files[at] is Ok);
        latest_is_the_greatest(files, at + 1, later(latest, files[at]->Ok_0));
    }
}

/// Takes the files of one of the archive's days into the latest moment: when each was
/// changed, or why that could not be told. A day that cannot be read has none.
pub fn inbox_scan_archive_day(
    files: &Option<Vec<Result<u64, String>>>,
    latest: &mut Option<u64>,
) -> (result: Result<(), String>)
    ensures
        match *files {
            None => *final(latest) == *old(latest) && result is Ok,
            Some(files) => {
                let (found, error) = latest_from(files@, 0, *old(latest));
                &&& *final(latest) == found
                &&& match result {
                    Ok(_) => error is None,
                    Err(told) => error == Some(told@),
                }
            },
        },
{
    if let Some(list) = files {
        let mut index: usize = 0;
        while index < list.len()
            invariant
                *files == Some(*list),
                index <= list.len(),
                latest_from(list@, 0, *old(latest)) == latest_from(list@, index as int, *latest),
            decreases list.len() - index,
        {
            match &list[index] {
                Ok(ms) => {
                    *latest = match *latest {
                        Some(old) if old > *ms => Some(old),
                        _ => Some(*ms),
                    };
                },
                Err(error) => {
                    return Err(error.clone());
                },
            }
            index += 1;
        }
    }
    Ok(())
}

/// The latest moment of the archive's days from `at` on, and the first error.
pub open spec fn latest_of_days(
    days: Seq<Option<Vec<Result<u64, String>>>>,
    at: int,
    latest: Option<u64>,
) -> Result<Option<u64>, Seq<char>>
    decreases days.len() - at,
{
    if at < 0 || at >= days.len() {
        Ok(latest)
    } else {
        match days[at] {
            None => latest_of_days(days, at + 1, latest),
            Some(files) => match latest_from(files@, 0, latest) {
                (found, None) => latest_of_days(days, at + 1, found),
                (_, Some(error)) => Err(error),
            },
        }
    }
}

/// Where every moment could be told, the latest of the archive is no earlier than any of
/// them, and no earlier than the one from before.
pub proof fn latest_of_days_is_the_greatest(
    days: Seq<Option<Vec<Result<u64, String>>>>,
    at: int,
    latest: Option<u64>,
)
    requires
        0 <= at,
        forall|day: int, i: int|
            at <= day < days.len() && days[day] is Some && 0 <= i < days[day]->0@.len()
                ==> #[trigger] days[day]->0@[i] is Ok,
    ensures
        latest_of_days(days, at, latest) matches Ok(found) && (latest matches Some(old) ==> (
        found matches Some(ms) && ms >= old)),
        forall|day: int, i: int|
            at <= day < days.len() && days[day] is Some && 0 <= i < days[day]->0@.len() ==> (
            latest_of_days(days, at, latest) matches Ok(Some(ms)) && ms
                >= (#[trigger] days[day]->0@[i])->Ok_0),
    decreases days.len() - at,
{
    if at < days.len() {
        match days[at] {
            None => latest_of_days_is_the_greatest(days, at + 1, latest),
            Some(files) => {
                assert forall|i: int| 0 <= i < files@.len() implies #[trigger] files@[i] is Ok by {
                    assert(days[at]->0@[i] is Ok);
                }
                latest_is_the_greatest(files@, 0, latest);
                let found = latest_from(files@, 0, latest).0;
                latest_of_days_is_the_greatest(days, at + 1, found);
                assert forall|day: int, i: int|
                    at <= day < days.len() && days[day] is Some && 0 <= i
                        < days[day]->0@.len() implies (latest_of_days(days, at, latest) matches Ok(
                    Some(ms),
                ) && ms >= (#[trigger] days[day]->0@[i])->Ok_0) by {
                    if day == at {
                        assert(files@[i] is Ok);
                    }
                }
            },
        }
    }
}

/// When the archive was last added to, if it can be read and holds anything.
pub fn inbox_latest_archive_mtime_ms(days: &Option<Vec<Option<Vec<Result<u64, String>>>>>) -> (result:
    Result<Option<u64>, String>)
    ensures
        match *days {
            None => result == Ok::<Option<u64>, String>(None),
            Some(days) => match latest_of_days(days@, 0, None) {
                Ok(latest) => result == Ok::<Option<u64>, String>(latest),
                Err(error) => result matches Err(told) && told@ == error,
            },
        },
{
    let mut latest: Option<u64> = None;
    if let Some(list) = days {
        let mut index: usize = 0;
        while index < list.len()
            invariant
                *days == Some(*list),
                index <= list.len(),
                latest_of_days(list@, 0, None) == latest_of_days(list@, index as int, latest),
            decreases list.len() - index,
        {
            inbox_scan_archive_day(&list[index], &mut latest)?;
            index += 1;
        }
    }
    Ok(latest)
}

} // verus!
