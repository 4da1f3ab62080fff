//! Coarse activity status of a session, guessed from its latest output.
//!
//! The guess is a heuristic: output that ends in a shell prompt means the
//! shell waits for input. Any program that prints such a tail is taken for an
//! idle shell too.

use vstd::prelude::*;
use vstd::string::StrSliceExecFns;
use vstd::utf8::{decode_utf8, valid_utf8};
use crate::text::{decode_lossy, lossy_text};

verus! {

/// Status label attached to every chunk of output.
#[derive(Clone, Copy, Debug, PartialEq, Eq, Structural)]
pub enum Status {
    /// The output ends in a shell prompt.
    Idle,
    /// Anything else.
    Working,
}

/// Characters that end an interactive shell prompt when a space follows.
pub open spec fn is_prompt_char(c: char) -> bool {
    c == '$' || c == '#' || c == '>' || c == '%'
}

/// The text ends in a prompt character immediately followed by one space.
pub open spec fn ends_with_prompt(text: Seq<char>) -> bool {
    text.len() >= 2 && text[text.len() - 1] == ' ' && is_prompt_char(text[text.len() - 2])
}

/// Status of decoded output.
pub open spec fn status_of_text(text: Seq<char>) -> Status {
    if ends_with_prompt(text) {
        Status::Idle
    } else {
        Status::Working
    }
}

/// Status of a raw chunk: that of its lossy decoding.
pub open spec fn status_of_chunk(chunk: Seq<u8>) -> Status {
    status_of_text(lossy_text(chunk))
}

/// The wire label of a status.
pub open spec fn label_of(status: Status) -> Seq<char> {
    match status {
        Status::Idle => "idle"@,
        Status::Working => "working"@,
    }
}

impl Status {
    /// The label sent to consumers: `"idle"` or `"working"`.
    pub fn label(&self) -> (label: &'static str)
        ensures
            label@ == label_of(*self),
    {
        match self {
            Status::Idle => "idle",
            Status::Working => "working",
        }
    }
}

fn is_prompt(c: char) -> (yes: bool)
    ensures
        yes == is_prompt_char(c),
{
    c == '$' || c == '#' || c == '>' || c == '%'
}

/// Classifies decoded output by its tail.
pub fn classify_text(text: &str) -> (status: Status)
    ensures
        status == status_of_text(text@),
{
    let n = text.unicode_len();
    if n >= 2 && text.get_char(n - 1) == ' ' && is_prompt(text.get_char(n - 2)) {
        Status::Idle
    } else {
        Status::Working
    }
}

/// Classifies a chunk of terminal output. The chunk is decoded lossily
/// first, so malformed bytes never fail the call.
pub fn classify(chunk: &[u8]) -> (status: Status)
    ensures
        status == status_of_chunk(chunk@),
        valid_utf8(chunk@) ==> status == status_of_text(decode_utf8(chunk@)),
{
    let text = decode_lossy(chunk);
    classify_text(text.as_str())
}

/// Classification depends on the bytes of the chunk and on nothing else:
/// equal chunks get equal labels, whenever and for whichever session they
/// are classified.
pub proof fn lemma_classify_is_deterministic(a: Seq<u8>, b: Seq<u8>)
    requires
        a =~= b,
    ensures
        status_of_chunk(a) == status_of_chunk(b),
        label_of(status_of_chunk(a)) == label_of(status_of_chunk(b)),
{
}

} // verus!
