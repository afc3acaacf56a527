//! The wire format.
//!
//! A frame holds one message. Its first byte tells the kind:
//!
//! | kind          | tag | then                                |
//! |---------------|-----|-------------------------------------|
//! | `HelloLan`    | 0   | port (2 bytes), text                |
//! | `HelloUser`   | 1   | text                                |
//! | `UserMessage` | 2   | text                                |
//!
//! Text is its length in bytes (8 bytes) followed by its UTF-8 encoding.
//! Numbers are little-endian. The length must account for every byte that
//! follows it, so a frame that was cut short, or grew a tail, is refused.

use vstd::prelude::*;
use vstd::bytes::*;
use vstd::slice::*;
use vstd::utf8::*;
use crate::message::{NetMessage, NetMessageView};

verus! {

/// The first byte of an encoded `HelloLan`.
pub const TAG_HELLO_LAN: u8 = 0;

/// The first byte of an encoded `HelloUser`.
pub const TAG_HELLO_USER: u8 = 1;

/// The first byte of an encoded `UserMessage`.
pub const TAG_USER_MESSAGE: u8 = 2;

/// Why a frame is no message.
#[derive(Clone, Copy, Debug, PartialEq, Eq, Structural)]
pub enum DeserializationError {
    /// The frame has no byte at all.
    Empty,
    /// The first byte is the tag of no message.
    UnknownTag,
    /// The frame ends before the port, the length or the announced text does.
    Truncated,
    /// Bytes follow the announced text.
    TrailingBytes,
    /// The text is not UTF-8.
    InvalidUtf8,
}

/// Whether the length of the message's text can be written in 8 bytes.
/// It can for every message that a machine holds.
pub open spec fn encodable(message: NetMessageView) -> bool {
    encode_utf8(message.text()).len() <= u64::MAX
}

/// The bytes that stand for a text: its length, then its UTF-8 encoding.
pub open spec fn spec_encode_text(text: Seq<char>) -> Seq<u8> {
    spec_u64_to_le_bytes(encode_utf8(text).len() as u64) + encode_utf8(text)
}

/// The frame that stands for a message.
pub open spec fn spec_encode(message: NetMessageView) -> Seq<u8> {
    match message {
        NetMessageView::HelloLan(name, port) => seq![TAG_HELLO_LAN] + spec_u16_to_le_bytes(port)
            + spec_encode_text(name),
        NetMessageView::HelloUser(name) => seq![TAG_HELLO_USER] + spec_encode_text(name),
        NetMessageView::UserMessage(text) => seq![TAG_USER_MESSAGE] + spec_encode_text(text),
    }
}

/// The text that `bytes` stand for, where they are a length followed by
/// exactly that many bytes of UTF-8.
pub open spec fn spec_decode_text(bytes: Seq<u8>) -> Result<Seq<char>, DeserializationError> {
    if bytes.len() < 8 {
        Err(DeserializationError::Truncated)
    } else {
        let announced = spec_u64_from_le_bytes(bytes.subrange(0, 8));
        let body = bytes.subrange(8, bytes.len() as int);
        if body.len() < announced {
            Err(DeserializationError::Truncated)
        } else if body.len() > announced {
            Err(DeserializationError::TrailingBytes)
        } else if !valid_utf8(body) {
            Err(DeserializationError::InvalidUtf8)
        } else {
            Ok(decode_utf8(body))
        }
    }
}

/// The message that a frame stands for, or why it stands for none.
pub open spec fn spec_decode(bytes: Seq<u8>) -> Result<NetMessageView, DeserializationError> {
    if bytes.len() == 0 {
        Err(DeserializationError::Empty)
    } else if bytes[0] == TAG_HELLO_LAN {
        if bytes.len() < 3 {
            Err(DeserializationError::Truncated)
        } else {
            match spec_decode_text(bytes.subrange(3, bytes.len() as int)) {
                Ok(name) => Ok(
                    NetMessageView::HelloLan(name, spec_u16_from_le_bytes(bytes.subrange(1, 3))),
                ),
                Err(e) => Err(e),
            }
        }
    } else if bytes[0] == TAG_HELLO_USER {
        match spec_decode_text(bytes.subrange(1, bytes.len() as int)) {
            Ok(name) => Ok(NetMessageView::HelloUser(name)),
            Err(e) => Err(e),
        }
    } else if bytes[0] == TAG_USER_MESSAGE {
        match spec_decode_text(bytes.subrange(1, bytes.len() as int)) {
            Ok(text) => Ok(NetMessageView::UserMessage(text)),
            Err(e) => Err(e),
        }
    } else {
        Err(DeserializationError::UnknownTag)
    }
}

/// What `decode` returns, with the message by its view.
pub open spec fn decoded_view(result: Result<NetMessage, DeserializationError>) -> Result<
    NetMessageView,
    DeserializationError,
> {
    match result {
        Ok(message) => Ok(message@),
        Err(e) => Err(e),
    }
}

/// `core::str::from_utf8`: the string slice over `bytes` where they are
/// valid UTF-8, which then encodes to these very bytes; nothing where they
/// are not.
#[verifier::external_body]
fn utf8_text(bytes: &[u8]) -> (text: Option<&str>)
    ensures
        text is Some <==> valid_utf8(bytes@),
        text matches Some(s) ==> encode_utf8(s@) == bytes@,
{
    match core::str::from_utf8(bytes) {
        Ok(s) => Some(s),
        Err(_) => None,
    }
}

fn put_text(out: &mut Vec<u8>, text: &str)
    ensures
        final(out)@ == old(out)@ + spec_encode_text(text@),
        encode_utf8(text@).len() <= u64::MAX,
{
    let body = text.as_bytes();
    let length = u64_to_le_bytes(body.len() as u64);
    out.extend_from_slice(length.as_slice());
    out.extend_from_slice(body);
    assert(out@ =~= old(out)@ + spec_encode_text(text@));
}

/// Writes a message down as one frame.
pub fn encode(message: &NetMessage) -> (bytes: Vec<u8>)
    ensures
        bytes@ == spec_encode(message@),
        encodable(message@),
{
    let mut out: Vec<u8> = Vec::new();
    match message {
        NetMessage::HelloLan(name, port) => {
            out.push(TAG_HELLO_LAN);
            let port_bytes = u16_to_le_bytes(*port);
            out.extend_from_slice(port_bytes.as_slice());
            assert(out@ =~= seq![TAG_HELLO_LAN] + spec_u16_to_le_bytes(*port));
            put_text(&mut out, name.as_str());
        },
        NetMessage::HelloUser(name) => {
            out.push(TAG_HELLO_USER);
            assert(out@ =~= seq![TAG_HELLO_USER]);
            put_text(&mut out, name.as_str());
        },
        NetMessage::UserMessage(text) => {
            out.push(TAG_USER_MESSAGE);
            assert(out@ =~= seq![TAG_USER_MESSAGE]);
            put_text(&mut out, text.as_str());
        },
    }
    out
}

fn take_text(bytes: &[u8]) -> (result: Result<String, DeserializationError>)
    ensures
        match result {
            Ok(text) => spec_decode_text(bytes@) == Ok::<Seq<char>, DeserializationError>(text@),
            Err(e) => spec_decode_text(bytes@) == Err::<Seq<char>, DeserializationError>(e),
        },
{
    let n = bytes.len();
    if n < 8 {
        return Err(DeserializationError::Truncated);
    }
    let announced = u64_from_le_bytes(slice_subrange(bytes, 0, 8));
    let body = slice_subrange(bytes, 8, n);
    let have = (n - 8) as u64;
    if have < announced {
        Err(DeserializationError::Truncated)
    } else if have > announced {
        Err(DeserializationError::TrailingBytes)
    } else {
        match utf8_text(body) {
            Some(s) => {
                proof {
                    encode_utf8_decode_utf8(s@);
                }
                Ok(s.to_owned())
            },
            None => Err(DeserializationError::InvalidUtf8),
        }
    }
}

/// Reads one frame. Every byte string is either the encoding of exactly one
/// message, which is returned, or refused with the reason.
pub fn decode(bytes: &[u8]) -> (result: Result<NetMessage, DeserializationError>)
    ensures
        decoded_view(result) == spec_decode(bytes@),
{
    let n = bytes.len();
    if n == 0 {
        return Err(DeserializationError::Empty);
    }
    let tag = bytes[0];
    if tag == TAG_HELLO_LAN {
        if n < 3 {
            return Err(DeserializationError::Truncated);
        }
        let port = u16_from_le_bytes(slice_subrange(bytes, 1, 3));
        match take_text(slice_subrange(bytes, 3, n)) {
            Ok(name) => Ok(NetMessage::HelloLan(name, port)),
            Err(e) => Err(e),
        }
    } else if tag == TAG_HELLO_USER {
        match take_text(slice_subrange(bytes, 1, n)) {
            Ok(name) => Ok(NetMessage::HelloUser(name)),
            Err(e) => Err(e),
        }
    } else if tag == TAG_USER_MESSAGE {
        match take_text(slice_subrange(bytes, 1, n)) {
            Ok(text) => Ok(NetMessage::UserMessage(text)),
            Err(e) => Err(e),
        }
    } else {
        Err(DeserializationError::UnknownTag)
    }
}

proof fn lemma_text_round_trip(text: Seq<char>)
    requires
        encode_utf8(text).len() <= u64::MAX,
    ensures
        spec_decode_text(spec_encode_text(text)) == Ok::<Seq<char>, DeserializationError>(text),
{
    lemma_auto_spec_u64_to_from_le_bytes();
    encode_utf8_valid_utf8(text);
    encode_utf8_decode_utf8(text);
    let body = encode_utf8(text);
    let length = spec_u64_to_le_bytes(body.len() as u64);
    let bytes = spec_encode_text(text);
    assert(bytes.subrange(0, 8) =~= length);
    assert(bytes.subrange(8, bytes.len() as int) =~= body);
}

proof fn lemma_text_is_exact(bytes: Seq<u8>)
    ensures
        spec_decode_text(bytes) matches Ok(text) ==> encode_utf8(text).len() <= u64::MAX
            && spec_encode_text(text) == bytes,
{
    if spec_decode_text(bytes) is Ok {
        lemma_auto_spec_u64_to_from_le_bytes();
        let head = bytes.subrange(0, 8);
        let body = bytes.subrange(8, bytes.len() as int);
        decode_utf8_encode_utf8(body);
        assert(spec_u64_to_le_bytes(spec_u64_from_le_bytes(head)) == head);
        assert(bytes =~= head + body);
    }
}

proof fn lemma_text_cut_short(text: Seq<char>, cut: int)
    requires
        encode_utf8(text).len() <= u64::MAX,
        0 <= cut < spec_encode_text(text).len(),
    ensures
        spec_decode_text(spec_encode_text(text).take(cut)) == Err::<
            Seq<char>,
            DeserializationError,
        >(DeserializationError::Truncated),
{
    lemma_auto_spec_u64_to_from_le_bytes();
    let whole = spec_encode_text(text);
    let part = whole.take(cut);
    if cut >= 8 {
        assert(part.subrange(0, 8) =~= spec_u64_to_le_bytes(encode_utf8(text).len() as u64));
    }
}

/// Reading what was written gives the message back: `decode` undoes `encode`
/// on every message.
pub proof fn lemma_round_trip(message: NetMessageView)
    requires
        encodable(message),
    ensures
        spec_decode(spec_encode(message)) == Ok::<NetMessageView, DeserializationError>(message),
{
    let bytes = spec_encode(message);
    lemma_text_round_trip(message.text());
    match message {
        NetMessageView::HelloLan(name, port) => {
            lemma_auto_spec_u16_to_from_le_bytes();
            assert(bytes.subrange(1, 3) =~= spec_u16_to_le_bytes(port));
            assert(bytes.subrange(3, bytes.len() as int) =~= spec_encode_text(name));
        },
        NetMessageView::HelloUser(name) => {
            assert(bytes.subrange(1, bytes.len() as int) =~= spec_encode_text(name));
        },
        NetMessageView::UserMessage(text) => {
            assert(bytes.subrange(1, bytes.len() as int) =~= spec_encode_text(text));
        },
    }
}

/// A frame is accepted only if it is, byte for byte, what `encode` writes
/// for the message it is read as. So no two frames stand for one message,
/// and a frame with any byte changed is refused or read as another message.
pub proof fn lemma_accepted_frame_is_exact(bytes: Seq<u8>)
    ensures
        spec_decode(bytes) matches Ok(message) ==> encodable(message) && spec_encode(message)
            == bytes,
{
    if spec_decode(bytes) is Ok {
        if bytes[0] == TAG_HELLO_LAN {
            lemma_auto_spec_u16_to_from_le_bytes();
            let port = bytes.subrange(1, 3);
            let rest = bytes.subrange(3, bytes.len() as int);
            lemma_text_is_exact(rest);
            assert(spec_u16_to_le_bytes(spec_u16_from_le_bytes(port)) == port);
            assert(bytes =~= seq![TAG_HELLO_LAN] + port + rest);
        } else {
            let rest = bytes.subrange(1, bytes.len() as int);
            lemma_text_is_exact(rest);
            assert(bytes =~= seq![bytes[0]] + rest);
        }
    }
}

/// A frame that lost its end is refused: no proper prefix of an encoding is
/// read as a message.
pub proof fn lemma_truncated_frame_refused(message: NetMessageView, cut: int)
    requires
        encodable(message),
        0 <= cut < spec_encode(message).len(),
    ensures
        spec_decode(spec_encode(message).take(cut)) == Err::<
            NetMessageView,
            DeserializationError,
        >(
            if cut == 0 {
                DeserializationError::Empty
            } else {
                DeserializationError::Truncated
            },
        ),
{
    let whole = spec_encode(message);
    let part = whole.take(cut);
    if cut > 0 {
        match message {
            NetMessageView::HelloLan(name, port) => {
                lemma_auto_spec_u16_to_from_le_bytes();
                if cut >= 3 {
                    assert(part.subrange(3, part.len() as int) =~= spec_encode_text(name).take(
                        cut - 3,
                    ));
                    lemma_text_cut_short(name, cut - 3);
                }
            },
            NetMessageView::HelloUser(name) => {
                assert(part.subrange(1, part.len() as int) =~= spec_encode_text(name).take(
                    cut - 1,
                ));
                lemma_text_cut_short(name, cut - 1);
            },
            NetMessageView::UserMessage(text) => {
                assert(part.subrange(1, part.len() as int) =~= spec_encode_text(text).take(
                    cut - 1,
                ));
                lemma_text_cut_short(text, cut - 1);
            },
        }
    }
}

} // verus!
