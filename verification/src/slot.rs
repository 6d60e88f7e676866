//! The last-error slot: one optional message that a caller sets and reads
//! back. Nothing in the library writes to it on its own.

use crate::text::{decode_text, NUL};
use vstd::prelude::*;
use vstd::utf8::{encode_utf8, valid_utf8};

verus! {

/// What the slot holds after a caller sets it: the bytes given if they are
/// UTF-8 text, and nothing if they are not or if none were given.
pub open spec fn message_set(error: Option<Seq<u8>>) -> Option<Seq<u8>> {
    match error {
        Some(bytes) => if valid_utf8(bytes) {
            Some(bytes)
        } else {
            None
        },
        None => None,
    }
}

/// How many bytes of the stored message a read copies into a buffer of the
/// given capacity: all that fit beside the terminator.
pub open spec fn copied_len(stored: Option<Seq<u8>>, capacity: nat) -> nat {
    match stored {
        Some(message) => if capacity == 0 {
            0
        } else if message.len() <= capacity - 1 {
            message.len()
        } else {
            (capacity - 1) as nat
        },
        None => 0,
    }
}

/// What a buffer holds after a read: the copied bytes, the terminator, and
/// behind it what the buffer held before. A buffer without room for the
/// terminator is left as it is.
pub open spec fn buffer_after_read(stored: Option<Seq<u8>>, buffer: Seq<u8>) -> Seq<u8> {
    if buffer.len() == 0 {
        buffer
    } else {
        let count = copied_len(stored, buffer.len()) as int;
        let message = match stored {
            Some(message) => message,
            None => Seq::empty(),
        };
        message.take(count) + seq![NUL] + buffer.skip(count + 1)
    }
}

/// A slot for the last error message.
#[derive(Debug)]
pub struct ErrorSlot {
    message: Option<String>,
}

impl View for ErrorSlot {
    type V = Option<Seq<u8>>;

    /// The bytes of the stored message, if there is one.
    closed spec fn view(&self) -> Option<Seq<u8>> {
        match self.message {
            Some(message) => Some(encode_utf8(message@)),
            None => None,
        }
    }
}

impl ErrorSlot {
    /// An empty slot.
    pub fn new() -> (slot: ErrorSlot)
        ensures
            slot@ is None,
    {
        ErrorSlot { message: None }
    }

    /// The stored message, if there is one.
    pub fn message(&self) -> (message: Option<&str>)
        ensures
            match message {
                Some(text) => self@ == Some(encode_utf8(text@)),
                None => self@ is None,
            },
    {
        match &self.message {
            Some(text) => Some(text.as_str()),
            None => None,
        }
    }

    /// What a slot holds is always UTF-8 text.
    pub proof fn lemma_holds_text(&self)
        ensures
            self@ matches Some(message) ==> valid_utf8(message),
    {
        broadcast use vstd::utf8::encode_utf8_valid_utf8;

    }
}

/// Sets the slot to the text of `error`, without its terminator. The slot is
/// cleared where no text is given, and where the bytes given are not UTF-8.
pub fn set_last_error(slot: &mut ErrorSlot, error: Option<&[u8]>)
    ensures
        final(slot)@ == message_set(
            match error {
                Some(bytes) => Some(bytes@),
                None => None,
            },
        ),
{
    match error {
        None => {
            slot.message = None;
        },
        Some(bytes) => match decode_text(bytes) {
            Some(text) => {
                slot.message = Some(text.to_owned());
            },
            None => {
                slot.message = None;
            },
        },
    }
}

/// Copies the stored message into `buffer` as a C string and returns the
/// number of bytes copied, which leaves the terminator out.
///
/// The capacity is the length of the buffer. With no buffer, or one of
/// capacity zero, nothing is written and the count is zero. Otherwise as
/// much of the message as fits beside the terminator is copied, and an empty
/// slot reads as the empty text. A message cut short is not marked as such.
pub fn get_last_error(slot: &ErrorSlot, buffer: Option<&mut [u8]>) -> (written: usize)
    ensures
        match buffer {
            Some(target) => written == copied_len(slot@, target@.len()) && final(target)@
                == buffer_after_read(slot@, target@),
            None => written == 0,
        },
{
    match buffer {
        None => 0,
        Some(target) => {
            let capacity = target.len();
            if capacity == 0 {
                return 0;
            }
            let ghost before = target@;
            match &slot.message {
                Some(message) => {
                    let bytes = message.as_str().as_bytes();
                    let count = if bytes.len() <= capacity - 1 {
                        bytes.len()
                    } else {
                        capacity - 1
                    };
                    let mut i: usize = 0;
                    while i < count
                        invariant
                            i <= count < capacity,
                            count <= bytes@.len(),
                            target@.len() == capacity,
                            before.len() == capacity,
                            target@ == bytes@.take(i as int) + before.skip(i as int),
                        decreases count - i,
                    {
                        target[i] = bytes[i];
                        i += 1;
                    }
                    target[count] = NUL;
                    assert(target@ == bytes@.take(count as int) + seq![NUL] + before.skip(
                        count + 1,
                    ));
                    count
                },
                None => {
                    target[0] = NUL;
                    assert(target@ == Seq::<u8>::empty() + seq![NUL] + before.skip(1));
                    0
                },
            }
        },
    }
}

/// A message set and then read into a buffer with room for it and its
/// terminator comes back whole, with its length as the count.
pub proof fn lemma_message_reads_back(message: Seq<u8>, buffer: Seq<u8>)
    requires
        valid_utf8(message),
        message.len() < buffer.len(),
    ensures
        copied_len(message_set(Some(message)), buffer.len()) == message.len(),
        buffer_after_read(message_set(Some(message)), buffer).take(message.len() as int)
            == message,
        buffer_after_read(message_set(Some(message)), buffer)[message.len() as int] == NUL,
{
    let read = buffer_after_read(message_set(Some(message)), buffer);
    assert(message.take(message.len() as int) == message);
    assert(read.take(message.len() as int) =~= message);
}

/// A read into a buffer of capacity zero copies nothing and writes nothing,
/// whatever the slot holds.
pub proof fn lemma_read_without_room(stored: Option<Seq<u8>>, buffer: Seq<u8>)
    requires
        buffer.len() == 0,
    ensures
        copied_len(stored, buffer.len()) == 0,
        buffer_after_read(stored, buffer) == buffer,
{
}

/// After the slot was set with no text, a read gives the empty text and the
/// count zero.
pub proof fn lemma_cleared_slot_reads_empty(buffer: Seq<u8>)
    requires
        buffer.len() > 0,
    ensures
        message_set(None) is None,
        copied_len(message_set(None), buffer.len()) == 0,
        buffer_after_read(message_set(None), buffer)[0] == NUL,
{
}

/// A read into a buffer with room always ends what it copied with a
/// terminator inside the buffer, copies a prefix of the message, and leaves
/// the rest of the buffer as it was.
pub proof fn lemma_read_is_terminated(stored: Option<Seq<u8>>, buffer: Seq<u8>)
    requires
        buffer.len() > 0,
    ensures
        copied_len(stored, buffer.len()) < buffer.len(),
        buffer_after_read(stored, buffer).len() == buffer.len(),
        buffer_after_read(stored, buffer)[copied_len(stored, buffer.len()) as int] == NUL,
        stored matches Some(message) ==> buffer_after_read(stored, buffer).take(
            copied_len(stored, buffer.len()) as int,
        ) == message.take(copied_len(stored, buffer.len()) as int),
        forall|i: int|
            copied_len(stored, buffer.len()) < i < buffer.len() ==> buffer_after_read(
                stored,
                buffer,
            )[i] == buffer[i],
{
    let count = copied_len(stored, buffer.len()) as int;
    match stored {
        Some(message) => {
            assert(buffer_after_read(stored, buffer).take(count) =~= message.take(count));
        },
        None => {},
    }
}

} // verus!
