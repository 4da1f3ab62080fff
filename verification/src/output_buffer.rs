//! Scrollback of one terminal session: the most recent output bytes, capped.

use vstd::prelude::*;
use vstd::slice::{slice_subrange, slice_to_vec};

verus! {

/// Upper bound on the number of bytes a session keeps of its output (512 KiB).
pub const MAX_BUFFER_BYTES: usize = 524288;

/// What is kept of an output stream: all of it while it fits under
/// [`MAX_BUFFER_BYTES`], otherwise its last [`MAX_BUFFER_BYTES`] bytes.
pub open spec fn retained(stream: Seq<u8>) -> Seq<u8> {
    if stream.len() <= MAX_BUFFER_BYTES {
        stream
    } else {
        stream.subrange(stream.len() - MAX_BUFFER_BYTES, stream.len() as int)
    }
}

/// `s` is what remains of `stream` after dropping some prefix of it.
pub open spec fn is_suffix_of(s: Seq<u8>, stream: Seq<u8>) -> bool {
    s.len() <= stream.len() && s =~= stream.subrange(stream.len() - s.len(), stream.len() as int)
}

/// All chunks of `chunks` laid end to end, in order.
pub open spec fn concat_chunks(chunks: Seq<Seq<u8>>) -> Seq<u8>
    decreases chunks.len(),
{
    if chunks.len() == 0 {
        Seq::empty()
    } else {
        concat_chunks(chunks.drop_last()) + chunks.last()
    }
}

/// The buffer contents after the chunks of `chunks` were appended one by one
/// to an empty buffer.
pub open spec fn replay(chunks: Seq<Seq<u8>>) -> Seq<u8>
    decreases chunks.len(),
{
    if chunks.len() == 0 {
        Seq::empty()
    } else {
        retained(replay(chunks.drop_last()) + chunks.last())
    }
}

/// Bounded byte buffer with oldest-first eviction.
pub struct OutputBuffer {
    data: Vec<u8>,
}

impl View for OutputBuffer {
    type V = Seq<u8>;

    closed spec fn view(&self) -> Seq<u8> {
        self.data@
    }
}

impl OutputBuffer {
    #[verifier::type_invariant]
    spec fn within_cap(self) -> bool {
        self.data@.len() <= MAX_BUFFER_BYTES
    }

    /// An empty buffer.
    pub fn new() -> (buffer: Self)
        ensures
            buffer@ == Seq::<u8>::empty(),
    {
        OutputBuffer { data: Vec::new() }
    }

    /// Number of bytes currently held; never more than the cap.
    pub fn len(&self) -> (n: usize)
        ensures
            n == self@.len(),
            n <= MAX_BUFFER_BYTES,
    {
        proof {
            use_type_invariant(self);
        }
        self.data.len()
    }

    /// True when nothing has been retained.
    pub fn is_empty(&self) -> (empty: bool)
        ensures
            empty == (self@.len() == 0),
    {
        self.data.len() == 0
    }

    /// The retained bytes, oldest first.
    pub fn as_slice(&self) -> (bytes: &[u8])
        ensures
            bytes@ == self@,
            bytes@.len() <= MAX_BUFFER_BYTES,
    {
        proof {
            use_type_invariant(self);
        }
        self.data.as_slice()
    }

    /// Appends `chunk`, then drops bytes from the front until the cap holds
    /// again.
    pub fn append(&mut self, chunk: &[u8])
        ensures
            final(self)@ == retained(old(self)@ + chunk@),
            final(self)@.len() <= MAX_BUFFER_BYTES,
            is_suffix_of(final(self)@, old(self)@ + chunk@),
    {
        proof {
            use_type_invariant(&*self);
        }
        let ghost before = self.data@;
        let n = chunk.len();
        let mut data: Vec<u8> = Vec::new();
        std::mem::swap(&mut self.data, &mut data);
        if n >= MAX_BUFFER_BYTES {
            let tail = slice_subrange(chunk, n - MAX_BUFFER_BYTES, n);
            data = slice_to_vec(tail);
        } else {
            let have = data.len();
            if have + n > MAX_BUFFER_BYTES {
                let excess = have + n - MAX_BUFFER_BYTES;
                data = data.split_off(excess);
            }
            let ghost kept = data@;
            data.extend_from_slice(chunk);
            assert(data@ =~= kept + chunk@);
        }
        assert(data@ =~= retained(before + chunk@));
        self.data = data;
    }
}

/// Appending never lets the buffer outgrow its cap, and what it holds is
/// always the tail end of everything that was appended:
/// replaying any sequence of chunks leaves exactly `retained` of their
/// concatenation.
pub proof fn lemma_replay_is_retained_stream(chunks: Seq<Seq<u8>>)
    ensures
        replay(chunks) == retained(concat_chunks(chunks)),
        replay(chunks).len() <= MAX_BUFFER_BYTES,
        is_suffix_of(replay(chunks), concat_chunks(chunks)),
    decreases chunks.len(),
{
    if chunks.len() > 0 {
        lemma_replay_is_retained_stream(chunks.drop_last());
        let earlier = concat_chunks(chunks.drop_last());
        let last = chunks.last();
        assert(retained(retained(earlier) + last) =~= retained(earlier + last));
    }
}

} // verus!
