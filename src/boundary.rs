use vstd::prelude::*;
use vstd::utf8::{decode_utf8, valid_utf8};

verus! {

/// The message carried by an error whose native text could not be decoded.
pub open spec fn fallback_message() -> Seq<char> {
    seq!['e', 'x', 'c', 'e', 'p', 't', 'i', 'o', 'n']
}

/// The message that the boundary reports for the raw bytes of a native
/// exception message.
pub open spec fn message_of(raw: Seq<u8>) -> Seq<char> {
    if valid_utf8(raw) {
        decode_utf8(raw)
    } else {
        fallback_message()
    }
}

/// Relies on std::str::from_utf8: it succeeds exactly on valid UTF-8, and the
/// text it yields is the decoding of the bytes.
#[verifier::external_body]
fn decode_text(raw: &[u8]) -> (r: Option<String>)
    ensures
        r is Some <==> valid_utf8(raw@),
        r is Some ==> r->Some_0@ == decode_utf8(raw@),
{
    std::str::from_utf8(raw).ok().map(|s| s.to_owned())
}

/// A recoverable error surfaced by the wrapper after a failed native call.
#[derive(Debug, Clone)]
pub struct BindError {
    pub what: String,
}

impl BindError {
    /// Builds the error from the raw bytes of the captured native message;
    /// undecodable text degrades to the generic message.
    pub fn new(what_raw: &[u8]) -> (r: Self)
        ensures
            r.what@ == message_of(what_raw@),
    {
        match decode_text(what_raw) {
            Some(what) => BindError { what },
            None => {
                let what = String::from_str("exception");
                proof {
                    reveal_strlit("exception");
                }
                BindError { what }
            },
        }
    }
}


/// The per-thread "last error" slot: empty, or holding the raw bytes of the
/// message captured from the most recent native failure.
pub struct ErrorSlot {
    pending: Option<Vec<u8>>,
}

impl View for ErrorSlot {
    type V = Option<Seq<u8>>;

    closed spec fn view(&self) -> Option<Seq<u8>> {
        match self.pending {
            Some(raw) => Some(raw@),
            None => None,
        }
    }
}

/// What the flat shim hands back: a valid result, or the failure signal,
/// which no valid result can be mistaken for.
pub enum CallOutcome<T> {
    Returned(T),
    Failed,
}

/// The slot after the native side of a call has run: a failure stores its
/// message, a success leaves the slot as it was.
pub open spec fn slot_after_native<T>(slot: Option<Seq<u8>>, result: Result<T, Seq<u8>>) -> Option<Seq<u8>> {
    match result {
        Ok(_) => slot,
        Err(raw) => Some(raw),
    }
}

/// The error that the wrapper surfaces after a failure signal, given what the
/// slot held.
pub open spec fn error_from_slot(slot: Option<Seq<u8>>) -> Seq<char> {
    match slot {
        Some(raw) => message_of(raw),
        None => fallback_message(),
    }
}

/// The slot after the wrapper has inspected the shim's signal: it reads and
/// clears the slot on failure, and leaves it alone on success.
pub open spec fn slot_after_wrapper(slot: Option<Seq<u8>>, failed: bool) -> Option<Seq<u8>> {
    if failed {
        None
    } else {
        slot
    }
}

impl ErrorSlot {
    /// An explicitly initialised, empty slot.
    pub fn new() -> (r: Self)
        ensures
            r@ is None,
    {
        ErrorSlot { pending: None }
    }

    /// Whether a failure message is waiting to be read.
    pub fn is_set(&self) -> (r: bool)
        ensures
            r == (self@ is Some),
    {
        self.pending.is_some()
    }

    /// Stores the raw message of a native failure, replacing whatever was
    /// pending.
    pub fn store(&mut self, raw: Vec<u8>)
        ensures
            final(self)@ == Some(raw@),
    {
        self.pending = Some(raw);
    }
}

/// The pending message, decoded; `None` when the slot is clear.
pub fn bind_error_what(slot: &ErrorSlot) -> (r: Option<String>)
    ensures
        r is None <==> slot@ is None,
        r is Some ==> r->Some_0@ == message_of(slot@->Some_0),
{
    match &slot.pending {
        Some(raw) => Some(BindError::new(raw.as_slice()).what),
        None => None,
    }
}

/// Clears the slot.
pub fn bind_error_reset(slot: &mut ErrorSlot)
    ensures
        final(slot)@ is None,
{
    slot.pending = None;
}

/// The native side of a possibly-throwing call: the outcome of the native
/// operation is turned into the shim's result, and a failure's message is
/// stored in the slot.
pub fn native_boundary<T>(slot: &mut ErrorSlot, result: Result<T, Vec<u8>>) -> (r: CallOutcome<T>)
    ensures
        final(slot)@ == slot_after_native(old(slot)@, match result {
            Ok(v) => Ok::<T, Seq<u8>>(v),
            Err(raw) => Err(raw@),
        }),
        match result {
            Ok(v) => r == CallOutcome::Returned(v),
            Err(_) => r is Failed,
        },
{
    match result {
        Ok(v) => CallOutcome::Returned(v),
        Err(raw) => {
            slot.store(raw);
            CallOutcome::Failed
        },
    }
}

/// The wrapper side of a possibly-throwing call: on the failure signal the
/// message is read and the slot cleared before the error is surfaced; a
/// valid result passes through and the slot is not touched.
pub fn finish_call<T>(slot: &mut ErrorSlot, outcome: CallOutcome<T>) -> (r: Result<T, BindError>)
    ensures
        match outcome {
            CallOutcome::Returned(v) => r == Ok::<T, BindError>(v),
            CallOutcome::Failed => r is Err && r->Err_0.what@ == error_from_slot(old(slot)@),
        },
        final(slot)@ == slot_after_wrapper(old(slot)@, outcome is Failed),
{
    match outcome {
        CallOutcome::Returned(v) => Ok(v),
        CallOutcome::Failed => {
            let what = match bind_error_what(slot) {
                Some(what) => what,
                None => {
                    let what = String::from_str("exception");
                    proof {
                        reveal_strlit("exception");
                    }
                    what
                },
            };
            bind_error_reset(slot);
            Err(BindError { what })
        },
    }
}

/// The error protocol, from a clear slot: a successful call leaves the slot
/// clear; a failing call leaves exactly its message to be read, and the slot
/// is clear again once the wrapper has read it; a later successful call then
/// finds the slot clear, so no stale message is ever attributed to it.
pub proof fn lemma_error_slot_protocol<T>(slot: Option<Seq<u8>>, first: Result<T, Seq<u8>>, later: T)
    requires
        slot is None,
    ensures
        first is Ok ==> slot_after_native(slot, first) is None,
        first is Err ==> slot_after_native(slot, first) == Some(first->Err_0)
            && error_from_slot(slot_after_native(slot, first)) == message_of(first->Err_0),
        slot_after_wrapper(slot_after_native(slot, first), first is Err) is None,
        slot_after_native(
            slot_after_wrapper(slot_after_native(slot, first), first is Err),
            Ok::<T, Seq<u8>>(later),
        ) is None,
{
}

} // verus!
