//! Reading the history value from VS Code's state database: the decisions
//! between a live read, a snapshot, and a read of the snapshot.

use vstd::prelude::*;
use vstd::utf8::{decode_utf8, valid_utf8};
use crate::history::{parse_entries, parsed_as, Entry};
use crate::text::{decimal_digits, has_prefix, push_decimal, push_signed_decimal, push_text, signed_decimal};

verus! {

/// The query that reads the recent-folder history from the state database.
pub fn recent_history_query() -> (sql: &'static str)
    ensures
        sql@ == "SELECT value FROM ItemTable WHERE key='history.recentlyOpenedPathsList' LIMIT 1"@,
{
    "SELECT value FROM ItemTable WHERE key='history.recentlyOpenedPathsList' LIMIT 1"
}

/// The suffixes of the files that accompany the database and are copied
/// with it into a snapshot.
pub fn sidecar_suffixes() -> (s: [&'static str; 2])
    ensures
        s[0]@ == "-wal"@,
        s[1]@ == "-shm"@,
{
    ["-wal", "-shm"]
}

/// The result code of a successful SQLite call.
pub const SQLITE_OK: i32 = 0;

/// The result code of a query step that produced a row.
pub const SQLITE_ROW: i32 = 100;

/// The result code of a query step that found no (more) rows.
pub const SQLITE_DONE: i32 = 101;

#[verifier::external_type_specification]
#[verifier::external_body]
pub struct ExFromUtf8Error(std::string::FromUtf8Error);

/// Wraps `String::from_utf8`: the bytes as a string when they are valid
/// UTF-8, else an error.
#[verifier::external_body]
fn string_from_utf8(bytes: Vec<u8>) -> (res: Result<String, std::string::FromUtf8Error>)
    ensures
        match res {
            Ok(s) => valid_utf8(bytes@) && s@ == decode_utf8(bytes@),
            Err(_) => !valid_utf8(bytes@),
        },
{
    String::from_utf8(bytes)
}

/// The message when preparing the history query failed.
pub fn prepare_failure_message(detail: Option<&str>) -> (m: String)
    ensures
        m@ == spec_error_message("could not read VS Code history"@, match detail {
            Some(d) => Some(d@),
            None => None,
        }),
{
    error_message("could not read VS Code history", detail)
}

/// `r` is what a row whose text column holds `text` (`None`: null) gives.
pub open spec fn is_row_outcome(text: Option<Seq<u8>>, r: ReadOutcome) -> bool {
    match text {
        None => outcome_view(r) == Ok::<Option<Seq<char>>, Seq<char>>(Some(Seq::<char>::empty())),
        Some(b) => if b.len() == 0 {
            outcome_view(r) == Ok::<Option<Seq<char>>, Seq<char>>(Some(Seq::<char>::empty()))
        } else if valid_utf8(b) {
            outcome_view(r) == Ok::<Option<Seq<char>>, Seq<char>>(Some(decode_utf8(b)))
        } else {
            r matches Err(m) && has_prefix(m@, "history is not UTF-8: "@)
        },
    }
}

/// What a row's text column gives: the empty string when the column is
/// empty or null (`None`), the text when it is UTF-8, else an error.
pub fn row_outcome(text: Option<Vec<u8>>) -> (r: ReadOutcome)
    ensures
        is_row_outcome(
            match text {
                Some(b) => Some(b@),
                None => None,
            },
            r,
        ),
{
    let bytes = match text {
        None => {
            return Ok(Some(String::new()));
        },
        Some(bytes) => bytes,
    };
    if bytes.len() == 0 {
        return Ok(Some(String::new()));
    }
    match string_from_utf8(bytes) {
        Ok(s) => Ok(Some(s)),
        Err(error) => {
            let mut m = "history is not UTF-8: ".to_owned();
            let ghost prefix = m@;
            let detail = error.to_string();
            push_text(&mut m, detail.as_str());
            assert(m@.take(prefix.len() as int) =~= prefix);
            Err(m)
        },
    }
}

/// The outcome of stepping the history query: the row's text, no value when
/// the query found no row, or an error with the database's message.
pub fn step_outcome(status: i32, text: Option<Vec<u8>>, detail: Option<&str>) -> (r: ReadOutcome)
    ensures
        status == SQLITE_ROW ==> is_row_outcome(
            match text {
                Some(b) => Some(b@),
                None => None,
            },
            r,
        ),
        status == SQLITE_DONE ==> outcome_view(r) == Ok::<Option<Seq<char>>, Seq<char>>(None),
        status != SQLITE_ROW && status != SQLITE_DONE ==> outcome_view(r) == Err::<
            Option<Seq<char>>,
            Seq<char>,
        >(
            spec_error_message("could not read live VS Code history"@, match detail {
                Some(d) => Some(d@),
                None => None,
            }),
        ),
{
    if status == SQLITE_ROW {
        row_outcome(text)
    } else if status == SQLITE_DONE {
        Ok(None)
    } else {
        Err(error_message("could not read live VS Code history", detail))
    }
}

/// The name of the temporary directory that holds the snapshot taken by
/// process `pid`.
pub fn snapshot_directory_name(pid: u32) -> (name: String)
    ensures
        name@ == "vsrecent_"@ + decimal_digits(pid as nat),
{
    let mut name = "vsrecent_".to_owned();
    push_decimal(&mut name, pid as u64);
    name
}

/// The file name of the database copy inside the snapshot directory.
pub fn snapshot_file_name() -> (name: &'static str)
    ensures
        name@ == "state.vscdb"@,
{
    "state.vscdb"
}

/// The outcome of a read: the history value if the database has one, or why
/// reading failed.
pub type ReadOutcome = Result<Option<String>, String>;

/// The view of a read outcome.
pub open spec fn outcome_view(r: ReadOutcome) -> Result<Option<Seq<char>>, Seq<char>> {
    match r {
        Ok(Some(s)) => Ok(Some(s@)),
        Ok(None) => Ok(None),
        Err(e) => Err(e@),
    }
}

/// Where reading the history stands.
pub enum RecentRead {
    /// The live database is being read.
    ReadingLive,
    /// The live read failed with this error; a snapshot is being taken.
    Snapshotting(String),
    /// The snapshot is being read.
    ReadingSnapshot,
    /// Reading is over, with this outcome.
    Finished(ReadOutcome),
}

/// What the caller does next.
pub enum ReadStep {
    /// Run the history query on the live database.
    ReadLive,
    /// Copy the database and its sidecar files into a temporary directory.
    TakeSnapshot,
    /// Run the history query on the snapshot.
    ReadSnapshot,
    /// Reading is over, with this outcome.
    Done(ReadOutcome),
}

/// What the caller hands back after doing a step.
pub enum ReadEvent {
    /// The outcome of a query.
    Queried(ReadOutcome),
    /// Whether the snapshot could be taken, or why not.
    SnapshotTaken(Result<(), String>),
}

/// The abstract state of a read.
pub enum ReadPhase {
    ReadingLive,
    Snapshotting(Seq<char>),
    ReadingSnapshot,
    Finished(Result<Option<Seq<char>>, Seq<char>>),
}

/// The abstract next step.
pub enum StepView {
    ReadLive,
    TakeSnapshot,
    ReadSnapshot,
    Done(Result<Option<Seq<char>>, Seq<char>>),
}

/// The abstract event.
pub enum EventView {
    Queried(Result<Option<Seq<char>>, Seq<char>>),
    SnapshotTaken(Result<(), Seq<char>>),
}

impl View for RecentRead {
    type V = ReadPhase;

    open spec fn view(&self) -> ReadPhase {
        match self {
            RecentRead::ReadingLive => ReadPhase::ReadingLive,
            RecentRead::Snapshotting(e) => ReadPhase::Snapshotting(e@),
            RecentRead::ReadingSnapshot => ReadPhase::ReadingSnapshot,
            RecentRead::Finished(r) => ReadPhase::Finished(outcome_view(*r)),
        }
    }
}

impl View for ReadStep {
    type V = StepView;

    open spec fn view(&self) -> StepView {
        match self {
            ReadStep::ReadLive => StepView::ReadLive,
            ReadStep::TakeSnapshot => StepView::TakeSnapshot,
            ReadStep::ReadSnapshot => StepView::ReadSnapshot,
            ReadStep::Done(r) => StepView::Done(outcome_view(*r)),
        }
    }
}

impl View for ReadEvent {
    type V = EventView;

    open spec fn view(&self) -> EventView {
        match self {
            ReadEvent::Queried(r) => EventView::Queried(outcome_view(*r)),
            ReadEvent::SnapshotTaken(Ok(())) => EventView::SnapshotTaken(Ok(())),
            ReadEvent::SnapshotTaken(Err(e)) => EventView::SnapshotTaken(Err(e@)),
        }
    }
}

/// The step that a state waits on.
pub open spec fn pending_step(phase: ReadPhase) -> StepView {
    match phase {
        ReadPhase::ReadingLive => StepView::ReadLive,
        ReadPhase::Snapshotting(_) => StepView::TakeSnapshot,
        ReadPhase::ReadingSnapshot => StepView::ReadSnapshot,
        ReadPhase::Finished(r) => StepView::Done(r),
    }
}

/// The error when both the live read and the snapshot failed.
pub open spec fn snapshot_failure(first: Seq<char>, error: Seq<char>) -> Seq<char> {
    first + "; snapshot failed: "@ + error
}

/// One step of reading the history: a successful live read is the outcome;
/// a failed one asks for a snapshot; a failed snapshot ends with both errors;
/// the read of the snapshot is the outcome. An event that the state does not
/// wait on leaves the state as it is and asks for its step again.
pub open spec fn spec_read_step(phase: ReadPhase, event: EventView) -> (ReadPhase, StepView) {
    match (phase, event) {
        (ReadPhase::ReadingLive, EventView::Queried(Ok(v))) => (
            ReadPhase::Finished(Ok(v)),
            StepView::Done(Ok(v)),
        ),
        (ReadPhase::ReadingLive, EventView::Queried(Err(e))) => (
            ReadPhase::Snapshotting(e),
            StepView::TakeSnapshot,
        ),
        (ReadPhase::Snapshotting(first), EventView::SnapshotTaken(Err(e))) => (
            ReadPhase::Finished(Err(snapshot_failure(first, e))),
            StepView::Done(Err(snapshot_failure(first, e))),
        ),
        (ReadPhase::Snapshotting(_), EventView::SnapshotTaken(Ok(()))) => (
            ReadPhase::ReadingSnapshot,
            StepView::ReadSnapshot,
        ),
        (ReadPhase::ReadingSnapshot, EventView::Queried(r)) => (
            ReadPhase::Finished(r),
            StepView::Done(r),
        ),
        _ => (phase, pending_step(phase)),
    }
}

fn copy_outcome(r: &ReadOutcome) -> (c: ReadOutcome)
    ensures
        outcome_view(c) == outcome_view(*r),
{
    match r {
        Ok(Some(s)) => Ok(Some(s.clone())),
        Ok(None) => Ok(None),
        Err(e) => Err(e.clone()),
    }
}

/// The first state of a read, and its first step: read the live database.
pub fn start_recent_read() -> (start: (RecentRead, ReadStep))
    ensures
        start.0@ == ReadPhase::ReadingLive,
        start.1@ == StepView::ReadLive,
{
    (RecentRead::ReadingLive, ReadStep::ReadLive)
}

/// One step of reading the recent-folder history: given where the read
/// stands and what the last step gave, where it stands now and what to do.
pub fn read_recent_json(state: RecentRead, event: ReadEvent) -> (next: (RecentRead, ReadStep))
    ensures
        (next.0@, next.1@) == spec_read_step(state@, event@),
{
    match (state, event) {
        (RecentRead::ReadingLive, ReadEvent::Queried(Ok(v))) => {
            let r: ReadOutcome = Ok(v);
            let copy = copy_outcome(&r);
            (RecentRead::Finished(r), ReadStep::Done(copy))
        },
        (RecentRead::ReadingLive, ReadEvent::Queried(Err(e))) => (
            RecentRead::Snapshotting(e),
            ReadStep::TakeSnapshot,
        ),
        (RecentRead::Snapshotting(first), ReadEvent::SnapshotTaken(Err(e))) => {
            let mut message = first;
            push_text(&mut message, "; snapshot failed: ");
            push_text(&mut message, e.as_str());
            let copy = message.clone();
            (RecentRead::Finished(Err(message)), ReadStep::Done(Err(copy)))
        },
        (RecentRead::Snapshotting(_), ReadEvent::SnapshotTaken(Ok(()))) => (
            RecentRead::ReadingSnapshot,
            ReadStep::ReadSnapshot,
        ),
        (RecentRead::ReadingSnapshot, ReadEvent::Queried(r)) => {
            let copy = copy_outcome(&r);
            (RecentRead::Finished(r), ReadStep::Done(copy))
        },
        (RecentRead::ReadingLive, event) => (RecentRead::ReadingLive, ReadStep::ReadLive),
        (RecentRead::Snapshotting(first), event) => (
            RecentRead::Snapshotting(first),
            ReadStep::TakeSnapshot,
        ),
        (RecentRead::ReadingSnapshot, event) => (
            RecentRead::ReadingSnapshot,
            ReadStep::ReadSnapshot,
        ),
        (RecentRead::Finished(r), event) => {
            let copy = copy_outcome(&r);
            (RecentRead::Finished(r), ReadStep::Done(copy))
        },
    }
}

/// The outcome of a read whose live query gave `live`, whose snapshot gave
/// `snapshot` and whose query of the snapshot gave `from_snapshot`.
pub open spec fn recent_read_outcome(
    live: Result<Option<Seq<char>>, Seq<char>>,
    snapshot: Result<(), Seq<char>>,
    from_snapshot: Result<Option<Seq<char>>, Seq<char>>,
) -> Result<Option<Seq<char>>, Seq<char>> {
    match live {
        Ok(v) => Ok(v),
        Err(first) => match snapshot {
            Err(e) => Err(snapshot_failure(first, e)),
            Ok(()) => from_snapshot,
        },
    }
}

/// A caller that does each step it is asked for and hands back what it got
/// is done after at most three steps, with the live value if the live read
/// succeeded, else with both errors if the snapshot failed, else with what
/// the snapshot read gave.
pub proof fn lemma_read_finishes(
    live: Result<Option<Seq<char>>, Seq<char>>,
    snapshot: Result<(), Seq<char>>,
    from_snapshot: Result<Option<Seq<char>>, Seq<char>>,
)
    ensures
        ({
            let (p1, s1) = spec_read_step(ReadPhase::ReadingLive, EventView::Queried(live));
            let (p2, s2) = spec_read_step(p1, EventView::SnapshotTaken(snapshot));
            let (p3, s3) = spec_read_step(p2, EventView::Queried(from_snapshot));
            let outcome = recent_read_outcome(live, snapshot, from_snapshot);
            &&& (live is Ok ==> s1 == StepView::Done(outcome))
            &&& (live is Err && snapshot is Err ==> s1 == StepView::TakeSnapshot && s2
                == StepView::Done(outcome))
            &&& (live is Err && snapshot is Ok ==> s1 == StepView::TakeSnapshot && s2
                == StepView::ReadSnapshot && s3 == StepView::Done(outcome))
        }),
{
}

/// The message of a failed database call: the context, then the database's
/// own message when it gave one.
pub open spec fn spec_error_message(context: Seq<char>, detail: Option<Seq<char>>) -> Seq<char> {
    match detail {
        Some(d) => context + ": "@ + d,
        None => context,
    }
}

/// The message of a failed database call.
pub fn error_message(context: &str, detail: Option<&str>) -> (m: String)
    ensures
        m@ == spec_error_message(context@, match detail {
            Some(d) => Some(d@),
            None => None,
        }),
{
    let mut m = context.to_owned();
    match detail {
        Some(d) => {
            push_text(&mut m, ": ");
            push_text(&mut m, d);
        },
        None => {},
    }
    m
}

/// The message when the database could not be opened.
pub fn open_failure_message(code: i32) -> (m: String)
    ensures
        m@ == "could not open VS Code history database ("@ + signed_decimal(code as int) + ")"@,
{
    let mut m = "could not open VS Code history database (".to_owned();
    push_signed_decimal(&mut m, code as i64);
    push_text(&mut m, ")");
    m
}

/// The entries of the history read from the database: an error when the
/// database holds no history value.
pub fn entries_from_history(json: Option<String>) -> (res: Result<Vec<Entry>, String>)
    ensures
        match json {
            None => res matches Err(m) && m@ == "recent-folder history is missing"@,
            Some(j) => parsed_as(j@, res),
        },
{
    match json {
        None => Err("recent-folder history is missing".to_owned()),
        Some(j) => parse_entries(j.as_str()),
    }
}

/// The history document of the demonstration entries.
pub open spec fn demo_history_text() -> Seq<char> {
    "{\"entries\":[
          {\"label\":\"vsrecent-rust\",\"folderUri\":\"file:///c%3A/Users/caleb/apps/vsrecent-rust\"},
          {\"label\":\"dotfiles\",\"folderUri\":\"vscode-remote://wsl%2BUbuntu/home/caleb/dotfiles\"},
          {\"label\":\"training\",\"folderUri\":\"vscode-remote://ssh-remote%2Bgpu-rig/data/training\"},
          {\"label\":\"api-service\",\"folderUri\":\"vscode-remote://dev-container%2Babc/workspaces/api\"}
        ]}"@
}

/// The history document of the demonstration entries.
pub fn demo_history_json() -> (json: &'static str)
    ensures
        json@ == demo_history_text(),
{
    "{\"entries\":[
          {\"label\":\"vsrecent-rust\",\"folderUri\":\"file:///c%3A/Users/caleb/apps/vsrecent-rust\"},
          {\"label\":\"dotfiles\",\"folderUri\":\"vscode-remote://wsl%2BUbuntu/home/caleb/dotfiles\"},
          {\"label\":\"training\",\"folderUri\":\"vscode-remote://ssh-remote%2Bgpu-rig/data/training\"},
          {\"label\":\"api-service\",\"folderUri\":\"vscode-remote://dev-container%2Babc/workspaces/api\"}
        ]}"
}

/// The demonstration entries, read from their history document.
pub fn demo_entries() -> (res: Result<Vec<Entry>, String>)
    ensures
        parsed_as(demo_history_text(), res),
{
    parse_entries(demo_history_json())
}

} // verus!
