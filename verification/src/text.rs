//! Text as bytes: decoding what a caller hands over, and building what is
//! handed back.

use crate::encoding::{
    lemma_ascii_byte_of_char, lemma_ascii_byte_of_text, lemma_encode_concat, lemma_encode_push,
};
use vstd::prelude::*;
use vstd::utf8::{encode_scalar, encode_utf8, valid_utf8};

verus! {

/// The byte of a double quote.
pub const QUOTE: u8 = 0x22;

/// The byte of a backslash.
pub const BACKSLASH: u8 = 0x5c;

/// The byte that ends a C string.
pub const NUL: u8 = 0;

/// Calls `core::str::from_utf8`, which checks that the bytes are UTF-8 and
/// then views them as text. The contract claims that the call succeeds
/// exactly on well-formed UTF-8, and that the text it gives has the bytes it
/// was given.
#[verifier::external_body]
pub(crate) fn decode_text(bytes: &[u8]) -> (text: Option<&str>)
    ensures
        text is Some <==> valid_utf8(bytes@),
        text matches Some(decoded) ==> encode_utf8(decoded@) == bytes@,
{
    core::str::from_utf8(bytes).ok()
}

/// A message with a backslash put before each of its double quotes.
pub open spec fn escape_quote_chars(message: Seq<char>) -> Seq<char>
    decreases message.len(),
{
    if message.len() == 0 {
        Seq::empty()
    } else if message.last() == '"' {
        escape_quote_chars(message.drop_last()).push('\\').push('"')
    } else {
        escape_quote_chars(message.drop_last()).push(message.last())
    }
}

/// The text that reports a failure: a JSON object with one member, `error`,
/// whose value is the message with its double quotes escaped.
pub open spec fn error_text(message: Seq<char>) -> Seq<char> {
    "{\"error\":\""@ + escape_quote_chars(message) + "\"}"@
}

/// The bytes of a message with the byte of a backslash put before each byte
/// of a double quote.
pub open spec fn escape_quotes(message: Seq<u8>) -> Seq<u8>
    decreases message.len(),
{
    if message.len() == 0 {
        Seq::empty()
    } else if message.last() == QUOTE {
        escape_quotes(message.drop_last()).push(BACKSLASH).push(QUOTE)
    } else {
        escape_quotes(message.drop_last()).push(message.last())
    }
}

/// The bytes of the text that reports a failure, from the bytes of its
/// message.
pub open spec fn error_payload(message: Seq<u8>) -> Seq<u8> {
    encode_utf8("{\"error\":\""@) + escape_quotes(message) + encode_utf8("\"}"@)
}

/// What a C string made from `text` holds before its terminator: the text
/// itself, or nothing if the text has a NUL byte inside.
pub open spec fn c_content(text: Seq<u8>) -> Seq<u8> {
    if text.contains(NUL) {
        Seq::empty()
    } else {
        text
    }
}

/// A message without double quotes is its own escaped form.
pub proof fn lemma_escape_chars_without_quotes(message: Seq<char>)
    requires
        !message.contains('"'),
    ensures
        escape_quote_chars(message) == message,
    decreases message.len(),
{
    if message.len() > 0 {
        let front = message.drop_last();
        assert forall|i: int| 0 <= i < front.len() implies front[i] != '"' by {
            assert(front[i] == message[i]);
            assert(message.contains(message[i]));
        }
        lemma_escape_chars_without_quotes(front);
        assert(message.contains(message.last()));
        assert(front.push(message.last()) == message);
    }
}

/// Escaping puts no NUL character into a message that has none.
pub proof fn lemma_escape_chars_keeps_nul_out(message: Seq<char>)
    requires
        !message.contains('\0'),
    ensures
        !escape_quote_chars(message).contains('\0'),
    decreases message.len(),
{
    if message.len() > 0 {
        let front = message.drop_last();
        assert forall|i: int| 0 <= i < front.len() implies front[i] != '\0' by {
            assert(front[i] == message[i]);
            assert(message.contains(message[i]));
        }
        lemma_escape_chars_keeps_nul_out(front);
        assert(message.contains(message.last()));
        let escaped = escape_quote_chars(message);
        assert forall|i: int| 0 <= i < escaped.len() implies escaped[i] != '\0' by {
            if i < escape_quote_chars(front).len() {
                assert(escaped[i] == escape_quote_chars(front)[i]);
                assert(escape_quote_chars(front).contains(escaped[i]));
            }
        }
    }
}

/// Bytes without the byte of a double quote are their own escaped form.
pub proof fn lemma_escape_without_quotes(message: Seq<u8>)
    requires
        !message.contains(QUOTE),
    ensures
        escape_quotes(message) == message,
    decreases message.len(),
{
    if message.len() > 0 {
        let front = message.drop_last();
        assert forall|i: int| 0 <= i < front.len() implies front[i] != QUOTE by {
            assert(front[i] == message[i]);
            assert(message.contains(message[i]));
        }
        lemma_escape_without_quotes(front);
        assert(message.contains(message.last()));
        assert(front.push(message.last()) == message);
    }
}

/// Escaping two messages put together is escaping each.
pub proof fn lemma_escape_concat(first: Seq<u8>, second: Seq<u8>)
    ensures
        escape_quotes(first + second) == escape_quotes(first) + escape_quotes(second),
    decreases second.len(),
{
    if second.len() == 0 {
        assert(first + second =~= first);
        assert(escape_quotes(first) + escape_quotes(second) =~= escape_quotes(first));
    } else {
        assert((first + second).drop_last() =~= first + second.drop_last());
        lemma_escape_concat(first, second.drop_last());
        assert(escape_quotes(first + second) =~= escape_quotes(first) + escape_quotes(second));
    }
}

/// Escaping the bytes of a text is escaping its characters: a byte of a
/// double quote in the encoding of a text is always a double quote of the
/// text.
pub proof fn lemma_escape_is_by_character(message: Seq<char>)
    ensures
        escape_quotes(encode_utf8(message)) == encode_utf8(escape_quote_chars(message)),
    decreases message.len(),
{
    if message.len() == 0 {
        assert(encode_utf8(message) =~= Seq::<u8>::empty());
    } else {
        let front = message.drop_last();
        let last = message.last();
        let escaped_front = escape_quote_chars(front);
        assert(message =~= front.push(last));
        lemma_encode_push(front, last);
        lemma_escape_concat(encode_utf8(front), encode_scalar(last as u32));
        lemma_escape_is_by_character(front);
        lemma_ascii_byte_of_char(last, QUOTE);
        if last == '"' {
            lemma_ascii_byte_of_char('\\', BACKSLASH);
            lemma_encode_push(escaped_front, '\\');
            lemma_encode_push(escaped_front.push('\\'), '"');
            assert(seq![QUOTE].drop_last() =~= Seq::<u8>::empty());
            assert(escape_quotes(Seq::<u8>::empty()) =~= Seq::<u8>::empty());
            assert(escape_quotes(seq![QUOTE]) =~= seq![BACKSLASH, QUOTE]);
            assert(escape_quotes(encode_utf8(message)) =~= encode_utf8(
                escape_quote_chars(message),
            ));
        } else {
            assert(last as u32 != QUOTE as u32) by {
                if last as u32 == QUOTE as u32 {
                    vstd::utf8::char_u32_cast(last, 0x22u32);
                    vstd::utf8::char_u32_cast('"', 0x22u32);
                }
            }
            lemma_escape_without_quotes(encode_scalar(last as u32));
            lemma_encode_push(escaped_front, last);
        }
    }
}

/// The bytes that the payload is built from are the bytes of the text that
/// reports the failure.
pub proof fn lemma_payload_is_text(message: Seq<char>)
    ensures
        error_payload(encode_utf8(message)) == encode_utf8(error_text(message)),
{
    let opening = "{\"error\":\""@;
    let closing = "\"}"@;
    let escaped = escape_quote_chars(message);
    lemma_escape_is_by_character(message);
    lemma_encode_concat(opening, escaped);
    lemma_encode_concat(opening + escaped, closing);
}

/// In an escaped message every double quote follows a backslash.
pub proof fn lemma_escaped_quotes_follow_backslash(message: Seq<char>, i: int)
    requires
        0 <= i < escape_quote_chars(message).len(),
        escape_quote_chars(message)[i] == '"',
    ensures
        i > 0 && escape_quote_chars(message)[i - 1] == '\\',
    decreases message.len(),
{
    let front = escape_quote_chars(message.drop_last());
    if i < front.len() {
        lemma_escaped_quotes_follow_backslash(message.drop_last(), i);
    }
}

/// A text without a NUL character can be the content of a C string as it is.
pub proof fn lemma_text_without_nul_is_kept(text: Seq<char>)
    requires
        !text.contains('\0'),
    ensures
        c_content(encode_utf8(text)) == encode_utf8(text),
{
    assert forall|i: int| 0 <= i < text.len() implies text[i] as u32 != NUL as u32 by {
        assert(text.contains(text[i]));
        if text[i] as u32 == 0 {
            vstd::utf8::char_u32_cast(text[i], 0u32);
            vstd::utf8::char_u32_cast('\0', 0u32);
        }
    }
    lemma_ascii_byte_of_text(text, NUL);
}

/// Puts `bytes` at the end of `buffer`.
fn append_bytes(buffer: &mut Vec<u8>, bytes: &[u8])
    ensures
        final(buffer)@ == old(buffer)@ + bytes@,
{
    let mut i: usize = 0;
    while i < bytes.len()
        invariant
            i <= bytes.len(),
            buffer@ == old(buffer)@ + bytes@.take(i as int),
        decreases bytes.len() - i,
    {
        buffer.push(bytes[i]);
        i += 1;
    }
}

/// Escapes the double quotes of a message with a backslash each.
pub fn escape_quote_bytes(message: &[u8]) -> (escaped: Vec<u8>)
    ensures
        escaped@ == escape_quotes(message@),
{
    let mut escaped: Vec<u8> = Vec::new();
    let mut i: usize = 0;
    while i < message.len()
        invariant
            i <= message.len(),
            escaped@ == escape_quotes(message@.take(i as int)),
        decreases message.len() - i,
    {
        let byte = message[i];
        proof {
            assert(message@.take(i + 1).drop_last() == message@.take(i as int));
        }
        if byte == QUOTE {
            escaped.push(BACKSLASH);
            escaped.push(QUOTE);
        } else {
            escaped.push(byte);
        }
        i += 1;
    }
    proof {
        assert(message@.take(message@.len() as int) == message@);
    }
    escaped
}

/// Builds the JSON object that reports a failure with the given message.
pub fn error_payload_bytes(message: &[u8]) -> (payload: Vec<u8>)
    ensures
        payload@ == error_payload(message@),
{
    let mut payload: Vec<u8> = Vec::new();
    append_bytes(&mut payload, "{\"error\":\"".as_bytes());
    let escaped = escape_quote_bytes(message);
    append_bytes(&mut payload, escaped.as_slice());
    append_bytes(&mut payload, "\"}".as_bytes());
    payload
}

/// Text that the boundary makes for its caller to own, and that is released
/// once, when its owner lets go of it. It holds what stands before the
/// terminator of a C string, so it never has a NUL byte inside.
#[derive(Debug)]
pub struct OwnedText {
    bytes: Vec<u8>,
}

impl View for OwnedText {
    type V = Seq<u8>;

    closed spec fn view(&self) -> Seq<u8> {
        self.bytes@
    }
}

impl OwnedText {
    #[verifier::type_invariant]
    spec fn terminated_once(&self) -> bool {
        !self.bytes@.contains(NUL)
    }

    /// Takes ownership of `text` as the content of a C string. A text with a
    /// NUL byte inside cannot be one, and gives the empty text.
    pub fn new(text: Vec<u8>) -> (owned: OwnedText)
        ensures
            owned@ == c_content(text@),
    {
        let mut i: usize = 0;
        while i < text.len()
            invariant
                i <= text.len(),
                !text@.take(i as int).contains(NUL),
            decreases text.len() - i,
        {
            if text[i] == NUL {
                assert(text@.contains(text@[i as int]));
                return OwnedText { bytes: Vec::new() };
            }
            proof {
                let seen = text@.take(i + 1);
                assert forall|k: int| 0 <= k < seen.len() implies seen[k] != NUL by {
                    if k < i {
                        assert(text@.take(i as int)[k] == seen[k]);
                        assert(text@.take(i as int).contains(seen[k]));
                    }
                }
            }
            i += 1;
        }
        proof {
            assert(text@.take(text@.len() as int) == text@);
        }
        OwnedText { bytes: text }
    }

    /// The bytes of the text, without a terminator.
    pub fn as_bytes(&self) -> (bytes: &[u8])
        ensures
            bytes@ == self@,
            !bytes@.contains(NUL),
    {
        proof {
            use_type_invariant(self);
        }
        self.bytes.as_slice()
    }

    /// Gives up the text as its bytes, without a terminator.
    pub fn into_bytes(self) -> (bytes: Vec<u8>)
        ensures
            bytes@ == self@,
            !bytes@.contains(NUL),
    {
        proof {
            use_type_invariant(&self);
        }
        self.bytes
    }
}

} // verus!
