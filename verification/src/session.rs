//! Terminal sessions and the table that owns them.
//!
//! A session is generic over `H`, the bundle of operating-system handles
//! (writer, pty, child) that the embedding application attaches to it. The
//! table never looks inside `H`; it only stores it and hands it back.
//!
//! Every session carries a token that no other session of the same
//! [`SessionTokens`] carries. The reader of a session presents it with each
//! chunk, so that a reader that outlives its session cannot write into a
//! later session of the same identifier.

use vstd::prelude::*;
use crate::output_buffer::{retained, OutputBuffer};
use crate::status::{classify_text, status_of_chunk, Status};
use crate::registry::KeyedTable;
use crate::text::{decode_lossy, lossy_text};

verus! {

/// Mathematical content of a session.
pub struct SessionView<H> {
    /// The handles attached at creation.
    pub handles: H,
    /// Whether live output is streamed to the consumer.
    pub visible: bool,
    /// The retained tail of the session's output.
    pub output: Seq<u8>,
    /// The token that the session's reader presents.
    pub token: u64,
}

/// One live interactive shell: its handles, its visibility flag, its
/// scrollback and its token.
pub struct PtySession<H> {
    handles: H,
    visible: bool,
    output: OutputBuffer,
    token: u64,
}

/// Issues the tokens of sessions, each one once.
pub struct SessionTokens {
    next: u64,
}

impl SessionTokens {
    /// The number of tokens issued so far, which is also the next token.
    pub closed spec fn issued(&self) -> nat {
        self.next as nat
    }

    /// A source that has issued nothing.
    pub fn new() -> (tokens: Self)
        ensures
            tokens.issued() == 0,
    {
        SessionTokens { next: 0 }
    }

    /// Issues the next token: the count of those issued before it. Gives
    /// `None`, and changes nothing, once the tokens of 64 bits are used up.
    pub fn issue(&mut self) -> (token: Option<u64>)
        ensures
            match token {
                Some(token) => token == old(self).issued() && final(self).issued() == old(
                    self,
                ).issued() + 1,
                None => old(self).issued() == u64::MAX && final(self).issued() == old(
                    self,
                ).issued(),
            },
    {
        if self.next == u64::MAX {
            None
        } else {
            let token = self.next;
            self.next = token + 1;
            Some(token)
        }
    }
}

/// What the reader hands to the event sink for one chunk of output.
pub struct ChunkEvents {
    /// The decoded chunk, present exactly when the session was visible.
    pub data: Option<String>,
    /// The status label of the chunk, always present.
    pub status: Status,
}

impl<H> View for PtySession<H> {
    type V = SessionView<H>;

    closed spec fn view(&self) -> SessionView<H> {
        SessionView {
            handles: self.handles,
            visible: self.visible,
            output: self.output@,
            token: self.token,
        }
    }
}

/// The session that spawning creates: nothing buffered yet.
pub open spec fn fresh_session<H>(handles: H, visible: bool, token: u64) -> SessionView<H> {
    SessionView { handles, visible, output: Seq::empty(), token }
}

impl<H> PtySession<H> {
    /// A session with an empty scrollback.
    pub fn new(handles: H, visible: bool, token: u64) -> (session: Self)
        ensures
            session@ == fresh_session(handles, visible, token),
    {
        PtySession { handles, visible, output: OutputBuffer::new(), token }
    }

    /// Whether the session currently streams its output.
    pub fn is_visible(&self) -> (visible: bool)
        ensures
            visible == self@.visible,
    {
        self.visible
    }

    /// Sets the visibility flag. Nothing buffered is touched or replayed.
    pub fn set_visible(&mut self, visible: bool)
        ensures
            final(self)@ == (SessionView { visible, ..old(self)@ }),
    {
        self.visible = visible;
    }

    /// The token that the session's reader presents.
    pub fn token(&self) -> (token: u64)
        ensures
            token == self@.token,
    {
        self.token
    }

    /// The attached handles.
    pub fn handles(&self) -> (handles: &H)
        ensures
            *handles == self@.handles,
    {
        &self.handles
    }

    /// The attached handles, for operations that need exclusive access.
    pub fn handles_mut(&mut self) -> (handles: &mut H)
        ensures
            *handles == old(self)@.handles,
            final(self)@ == (SessionView { handles: *final(handles), ..old(self)@ }),
    {
        &mut self.handles
    }

    /// Gives the handles up, ending the session.
    pub fn into_handles(self) -> (handles: H)
        ensures
            handles == self@.handles,
    {
        self.handles
    }

    /// The retained output, oldest byte first.
    pub fn output(&self) -> (bytes: &[u8])
        ensures
            bytes@ == self@.output,
    {
        self.output.as_slice()
    }

    /// One step of the reader: retains the chunk, classifies it and decides
    /// what to emit. The data event is gated by visibility, the status event
    /// is not.
    pub fn record_output(&mut self, chunk: &[u8]) -> (events: ChunkEvents)
        ensures
            final(self)@ == (SessionView {
                output: retained(old(self)@.output + chunk@),
                ..old(self)@
            }),
            events.status == status_of_chunk(chunk@),
            old(self)@.visible ==> events.data is Some && events.data->0@ == lossy_text(chunk@),
            !old(self)@.visible ==> events.data is None,
    {
        self.output.append(chunk);
        let text = decode_lossy(chunk);
        let status = classify_text(text.as_str());
        let data = if self.visible {
            Some(text)
        } else {
            None
        };
        ChunkEvents { data, status }
    }
}

/// Registry of the live sessions, keyed by their identifier.
pub type SessionTable<H> = KeyedTable<PtySession<H>>;

} // verus!
