//! The operations of the session manager, as decisions over the session
//! table. Whoever embeds the library performs the terminal I/O that a
//! decision calls for: opening the pty, writing, resizing, killing, reading.

use vstd::prelude::*;
use vstd::string::StringExecFns;
use portable_pty::{CommandBuilder, PtySize};
use crate::output_buffer::retained;
use crate::session::{fresh_session, ChunkEvents, PtySession, SessionTable, SessionView};
use crate::shell::{
    chosen_cwd, command_argv, command_cwd, command_env, pty_size, shell_argv, shell_command,
    Platform,
};
use crate::status::{classify, label_of, status_of_chunk};
use crate::text::lossy_text;

verus! {

/// Number of bytes the reader asks of the pty per read (8 KiB).
pub const READ_CHUNK_BYTES: usize = 8192;

/// Why an operation on a session failed.
#[derive(Debug)]
pub enum PtyError {
    /// No session is registered under the identifier.
    NoSession,
    /// The operating system refused the pty or the child process.
    Allocation(String),
    /// Writing to the session's input failed part-way.
    Write(String),
}

/// The text reported to the caller for an error.
pub open spec fn message_of(error: PtyError) -> Seq<char> {
    match error {
        PtyError::NoSession => "No session found"@,
        PtyError::Allocation(reason) => reason@,
        PtyError::Write(reason) => reason@,
    }
}

impl PtyError {
    /// The text reported to the caller.
    pub fn message(&self) -> (text: String)
        ensures
            text@ == message_of(*self),
    {
        match self {
            PtyError::NoSession => "No session found".to_owned(),
            PtyError::Allocation(reason) => reason.clone(),
            PtyError::Write(reason) => reason.clone(),
        }
    }
}

/// What to launch for a session that does not exist yet.
pub struct SpawnPlan {
    /// Geometry to open the pty with.
    pub size: PtySize,
    /// The shell to attach to the pty's secondary side.
    pub command: CommandBuilder,
}

/// One event for the sink: its name and its payload.
pub struct Emission {
    /// Event name, unique to the session and the kind of event.
    pub event: String,
    /// The text carried.
    pub payload: String,
}

/// The events that one chunk of output gives rise to, in emission order.
pub struct ReaderEvents {
    /// The data event, present exactly when the reader's session is live
    /// and visible.
    pub data: Option<Emission>,
    /// The status event, always present.
    pub status: Emission,
}

/// Name of the data event of session `id`.
pub open spec fn data_event_of(id: Seq<char>) -> Seq<char> {
    "pty-data-"@ + id
}

/// Name of the status event of session `id`.
pub open spec fn status_event_of(id: Seq<char>) -> Seq<char> {
    "pty-status-"@ + id
}

/// The table after an attempt to register a new session under `id`, and
/// whether the session was created.
pub open spec fn registered<H>(
    sessions: Map<Seq<char>, SessionView<H>>,
    id: Seq<char>,
    handles: H,
    visible: bool,
    token: u64,
) -> (Map<Seq<char>, SessionView<H>>, bool) {
    if sessions.contains_key(id) {
        (sessions, false)
    } else {
        (sessions.insert(id, fresh_session(handles, visible, token)), true)
    }
}

/// The session under `id` is the one whose reader presents `token`.
pub open spec fn reader_is_live<H>(
    sessions: Map<Seq<char>, SessionView<H>>,
    id: Seq<char>,
    token: u64,
) -> bool {
    sessions.contains_key(id) && sessions[id].token == token
}

/// The table after the reader with `token` read `chunk` for `id`: its own
/// session retains the chunk; where that session is gone, nothing changes.
pub open spec fn pumped<H>(
    sessions: Map<Seq<char>, SessionView<H>>,
    id: Seq<char>,
    token: u64,
    chunk: Seq<u8>,
) -> Map<Seq<char>, SessionView<H>> {
    if reader_is_live(sessions, id, token) {
        sessions.insert(
            id,
            SessionView { output: retained(sessions[id].output + chunk), ..sessions[id] },
        )
    } else {
        sessions
    }
}

/// What a write reports: the text of the first failure, of the write or
/// else of the flush, or `None` when both went through.
pub open spec fn write_failure(written: Result<(), String>, flushed: Result<(), String>) -> Option<
    Seq<char>,
> {
    match written {
        Err(reason) => Some(reason@),
        Ok(_) => match flushed {
            Err(reason) => Some(reason@),
            Ok(_) => None,
        },
    }
}

/// The table after closing `id`, and the handles of the child to kill, if a
/// session was there.
pub open spec fn closed<H>(sessions: Map<Seq<char>, SessionView<H>>, id: Seq<char>) -> (
    Map<Seq<char>, SessionView<H>>,
    Option<H>,
) {
    if sessions.contains_key(id) {
        (sessions.remove(id), Some(sessions[id].handles))
    } else {
        (sessions, None)
    }
}

/// Name of the data event of session `id`.
pub fn data_event(id: &str) -> (name: String)
    ensures
        name@ == data_event_of(id@),
{
    String::from_str("pty-data-").concat(id)
}

/// Name of the status event of session `id`.
pub fn status_event(id: &str) -> (name: String)
    ensures
        name@ == status_event_of(id@),
{
    String::from_str("pty-status-").concat(id)
}

/// First half of spawning: decides whether a session is to be launched.
/// Returns `None` when `id` is taken, which the caller reports as "not
/// created"; nothing is changed either way. Otherwise the plan says how to
/// open the pty and which shell to start in it.
pub fn spawn_pty<H>(
    sessions: &SessionTable<H>,
    id: &str,
    cwd: Option<&str>,
    cwd_exists: bool,
    rows: u16,
    cols: u16,
    platform: Platform,
) -> (plan: Option<SpawnPlan>)
    ensures
        plan is None == sessions@.contains_key(id@),
        plan matches Some(plan) ==> {
            &&& plan.size.rows == rows
            &&& plan.size.cols == cols
            &&& plan.size.pixel_width == 0
            &&& plan.size.pixel_height == 0
            &&& command_argv(plan.command) == shell_argv(platform)
            &&& platform == Platform::Posix ==> command_env(plan.command, "TERM"@) == Some(
                "xterm-256color"@,
            )
            &&& command_cwd(plan.command) == chosen_cwd(
                match cwd {
                    Some(dir) => Some(dir@),
                    None => None,
                },
                cwd_exists,
            )
        },
{
    if sessions.contains(id) {
        None
    } else {
        Some(SpawnPlan { size: pty_size(rows, cols), command: shell_command(platform, cwd, cwd_exists) })
    }
}

/// Second half of spawning: registers the launched session with an empty
/// scrollback, under the token that its reader will present. Gives `None`
/// when the session was created; the caller then starts the reader. When
/// `id` was taken in the meantime nothing changes and the handles come
/// back, so that the caller can end the child it started.
pub fn register_pty<H>(
    sessions: &mut SessionTable<H>,
    id: String,
    handles: H,
    visible: bool,
    token: u64,
) -> (refused: Option<H>)
    requires
        old(sessions).wf(),
    ensures
        final(sessions).wf(),
        (final(sessions)@, refused is None) == registered(
            old(sessions)@,
            id@,
            handles,
            visible,
            token,
        ),
        refused matches Some(returned) ==> returned == handles,
{
    if sessions.contains(id.as_str()) {
        Some(handles)
    } else {
        let created = sessions.insert(id, PtySession::new(handles, visible, token));
        assert(created);
        None
    }
}

/// Finds the handles to write to. An unknown `id` is an error, and then
/// nothing is changed.
pub fn write_to_pty<'a, H>(sessions: &'a mut SessionTable<H>, id: &str) -> (target: Result<
    &'a mut H,
    PtyError,
>)
    requires
        old(sessions).wf(),
    ensures
        final(sessions).wf(),
        target is Ok == old(sessions)@.contains_key(id@),
        match target {
            Ok(handles) => *handles == old(sessions)@[id@].handles && final(sessions)@ == old(
                sessions,
            )@.insert(id@, (SessionView { handles: *final(handles), ..old(sessions)@[id@] })),
            Err(error) => error is NoSession && final(sessions)@ == old(sessions)@,
        },
{
    match sessions.get_for_write(id) {
        Some(session) => Ok(session.handles_mut()),
        None => Err(PtyError::NoSession),
    }
}

/// What a write to a session reports, from the outcome of writing all the
/// bytes and the outcome of the flush after it. A failure of either is an
/// error; no undelivered write passes for a success.
pub fn write_outcome(written: Result<(), String>, flushed: Result<(), String>) -> (outcome: Result<
    (),
    PtyError,
>)
    ensures
        match write_failure(written, flushed) {
            Some(text) => outcome matches Err(PtyError::Write(reason)) && reason@ == text,
            None => outcome is Ok,
        },
{
    match written {
        Err(reason) => Err(PtyError::Write(reason)),
        Ok(_) => match flushed {
            Err(reason) => Err(PtyError::Write(reason)),
            Ok(_) => Ok(()),
        },
    }
}

/// Finds the handles to resize and the new geometry. An unknown `id` gives
/// `None`: resizing a session that is gone is harmless and not reported.
pub fn resize_pty<'a, H>(sessions: &'a SessionTable<H>, id: &str, rows: u16, cols: u16) -> (target:
    Option<(&'a H, PtySize)>)
    requires
        sessions.wf(),
    ensures
        target is Some == sessions@.contains_key(id@),
        target matches Some((handles, size)) ==> {
            &&& *handles == sessions@[id@].handles
            &&& size.rows == rows
            &&& size.cols == cols
            &&& size.pixel_width == 0
            &&& size.pixel_height == 0
        },
{
    match sessions.get_for_read(id) {
        Some(session) => Some((session.handles(), pty_size(rows, cols))),
        None => None,
    }
}

/// Sets the visibility flag of `id`. Only later data events are affected;
/// the scrollback is neither dropped nor replayed. An unknown `id` is
/// ignored.
pub fn set_pty_visibility<H>(sessions: &mut SessionTable<H>, id: &str, visible: bool)
    requires
        old(sessions).wf(),
    ensures
        final(sessions).wf(),
        old(sessions)@.contains_key(id@) ==> final(sessions)@ == old(sessions)@.insert(
            id@,
            (SessionView { visible, ..old(sessions)@[id@] }),
        ),
        !old(sessions)@.contains_key(id@) ==> final(sessions)@ == old(sessions)@,
{
    match sessions.get_for_write(id) {
        Some(session) => {
            session.set_visible(visible);
        },
        None => {},
    }
}

/// Removes the session and returns the handles whose child is to be killed.
/// An unknown `id` gives `None` and changes nothing, so closing twice kills
/// once.
pub fn close_pty<H>(sessions: &mut SessionTable<H>, id: &str) -> (handles: Option<H>)
    requires
        old(sessions).wf(),
    ensures
        final(sessions).wf(),
        (final(sessions)@, handles) == closed(old(sessions)@, id@),
{
    match sessions.remove(id) {
        Some(session) => Some(session.into_handles()),
        None => None,
    }
}

/// One step of the reader that was started for session `id` with `token`:
/// retains the chunk in the scrollback of its session and says what to
/// emit. The status event is always there. The data event is there while
/// the reader's session is live and visible. A reader whose session was
/// closed, or closed and spawned anew, changes nothing in the table; it
/// goes on until its read fails.
pub fn pump_output<H>(sessions: &mut SessionTable<H>, id: &str, token: u64, chunk: &[u8]) -> (events:
    ReaderEvents)
    requires
        old(sessions).wf(),
    ensures
        final(sessions).wf(),
        final(sessions)@ == pumped(old(sessions)@, id@, token, chunk@),
        events.status.event@ == status_event_of(id@),
        events.status.payload@ == label_of(status_of_chunk(chunk@)),
        events.data is Some == (reader_is_live(old(sessions)@, id@, token) && old(
            sessions,
        )@[id@].visible),
        events.data matches Some(data) ==> data.event@ == data_event_of(id@) && data.payload@
            == lossy_text(chunk@),
{
    let live = match sessions.get_for_read(id) {
        Some(session) => session.token() == token,
        None => false,
    };
    if live {
        match sessions.get_for_write(id) {
            Some(session) => {
                let ChunkEvents { data, status } = session.record_output(chunk);
                let data = match data {
                    Some(text) => Some(Emission { event: data_event(id), payload: text }),
                    None => None,
                };
                let status = Emission {
                    event: status_event(id),
                    payload: status.label().to_owned(),
                };
                ReaderEvents { data, status }
            },
            None => vstd::pervasive::unreached(),
        }
    } else {
        let status = Emission {
            event: status_event(id),
            payload: classify(chunk).label().to_owned(),
        };
        ReaderEvents { data: None, status }
    }
}

/// Spawning the same identifier twice creates one session: the second
/// attempt reports "not created" and leaves the table, the first session's
/// scrollback included, exactly as the first attempt left it.
pub proof fn lemma_spawn_is_idempotent<H>(
    sessions: Map<Seq<char>, SessionView<H>>,
    id: Seq<char>,
    first: H,
    first_visible: bool,
    first_token: u64,
    second: H,
    second_visible: bool,
    second_token: u64,
)
    ensures
        registered(
            registered(sessions, id, first, first_visible, first_token).0,
            id,
            second,
            second_visible,
            second_token,
        ) == (registered(sessions, id, first, first_visible, first_token).0, false),
{
}

/// A scrollback is written by its own reader only: after a session was
/// closed and its identifier spawned anew under another token, a chunk that
/// the old reader still reads changes nothing.
pub proof fn lemma_stale_reader_changes_nothing<H>(
    sessions: Map<Seq<char>, SessionView<H>>,
    id: Seq<char>,
    old_token: u64,
    handles: H,
    visible: bool,
    new_token: u64,
    chunk: Seq<u8>,
)
    requires
        old_token != new_token,
    ensures
        pumped(closed(sessions, id).0, id, old_token, chunk) == closed(sessions, id).0,
        pumped(
            registered(closed(sessions, id).0, id, handles, visible, new_token).0,
            id,
            old_token,
            chunk,
        ) == registered(closed(sessions, id).0, id, handles, visible, new_token).0,
{
}

/// Closing twice is closing once: the second close finds nothing to kill and
/// changes nothing.
pub proof fn lemma_close_is_idempotent<H>(sessions: Map<Seq<char>, SessionView<H>>, id: Seq<char>)
    ensures
        closed(closed(sessions, id).0, id) == (closed(sessions, id).0, None::<H>),
        !closed(sessions, id).0.contains_key(id),
{
}

} // verus!
