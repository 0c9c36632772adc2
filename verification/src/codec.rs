//! The canonical byte encoding of a structured message.
//!
//! A message is a sender identity and a content string.  On the wire it is
//! the two strings as UTF-8, each prefixed by its byte length as a
//! little-endian `u32`.  Encoding and decoding are verified to be exact
//! inverses of each other.
use vstd::prelude::*;

use crate::HandleError;
use vstd::bytes::lemma_auto_spec_u32_to_from_le_bytes;
use vstd::bytes::spec_u32_from_le_bytes;
use vstd::bytes::spec_u32_to_le_bytes;
use vstd::bytes::u32_from_le_bytes;
use vstd::bytes::u32_to_le_bytes;
use vstd::slice::slice_subrange;
use vstd::slice::slice_to_vec;
use vstd::string::StrSliceExecFns;
use vstd::utf8::decode_utf8;
use vstd::utf8::encode_utf8;
use vstd::utf8::encode_utf8_decode_utf8;
use vstd::utf8::encode_utf8_valid_utf8;
use vstd::utf8::valid_utf8;

verus! {

/// What a participant tells the evaluator: who sent it, and what was found.
pub struct Message {
    pub sender: String,
    pub content: String,
}

/// The mathematical value of a [`Message`]: its two strings as character
/// sequences.
#[verifier::ext_equal]
pub ghost struct MessageV {
    pub sender: Seq<char>,
    pub content: Seq<char>,
}

impl View for Message {
    type V = MessageV;

    open spec fn view(&self) -> MessageV {
        MessageV { sender: self.sender@, content: self.content@ }
    }
}

/// A message fits on the wire when each of its strings encodes to at most
/// `u32::MAX` bytes, so that the byte length fits in the length prefix.
pub open spec fn spec_message_encodable(m: MessageV) -> bool {
    &&& encode_utf8(m.sender).len() <= u32::MAX
    &&& encode_utf8(m.content).len() <= u32::MAX
}

/// The canonical byte encoding: each string as UTF-8 behind a little-endian
/// `u32` byte-length prefix, sender first.
pub open spec fn spec_encode_message(m: MessageV) -> Seq<u8> {
    let sb = encode_utf8(m.sender);
    let cb = encode_utf8(m.content);
    spec_u32_to_le_bytes(sb.len() as u32) + sb + spec_u32_to_le_bytes(cb.len() as u32) + cb
}

/// The inverse reading: `None` on any byte sequence that is not exactly the
/// encoding of one message.
pub open spec fn spec_decode_message(b: Seq<u8>) -> Option<MessageV> {
    if b.len() < 4 {
        None
    } else {
        let n1 = spec_u32_from_le_bytes(b.subrange(0, 4)) as int;
        if b.len() < 8 + n1 {
            None
        } else {
            let sb = b.subrange(4, 4 + n1);
            let n2 = spec_u32_from_le_bytes(b.subrange(4 + n1, 8 + n1)) as int;
            if b.len() != 8 + n1 + n2 {
                None
            } else {
                let cb = b.subrange(8 + n1, 8 + n1 + n2);
                if valid_utf8(sb) && valid_utf8(cb) {
                    Some(MessageV { sender: decode_utf8(sb), content: decode_utf8(cb) })
                } else {
                    None
                }
            }
        }
    }
}

/// Relies on core's `str::from_utf8`: it accepts exactly the valid UTF-8
/// byte sequences, and the accepted string is the one those bytes encode.
#[verifier::external_body]
fn str_from_utf8(bytes: &[u8]) -> (r: Option<&str>)
    ensures
        r is Some <==> valid_utf8(bytes@),
        r matches Some(s) ==> encode_utf8(s@) == bytes@ && s@ == decode_utf8(bytes@),
{
    core::str::from_utf8(bytes).ok()
}

/// Writes a message in its canonical byte encoding.
///
/// Fails with `EncodingError` exactly when a string is too long for the
/// length prefix.
pub fn encode_message(m: &Message) -> (r: Result<Vec<u8>, HandleError>)
    ensures
        spec_message_encodable(m@) ==> (r matches Ok(b) && b@ == spec_encode_message(m@)),
        !spec_message_encodable(m@) ==> r == Err::<Vec<u8>, HandleError>(
            HandleError::EncodingError,
        ),
{
    let mut sb: Vec<u8> = m.sender.as_str().as_bytes_vec();
    let mut cb: Vec<u8> = m.content.as_str().as_bytes_vec();
    if sb.len() as u64 > u32::MAX as u64 || cb.len() as u64 > u32::MAX as u64 {
        return Err(HandleError::EncodingError);
    }
    let mut out: Vec<u8> = u32_to_le_bytes(sb.len() as u32);
    out.append(&mut sb);
    let mut clen: Vec<u8> = u32_to_le_bytes(cb.len() as u32);
    out.append(&mut clen);
    out.append(&mut cb);
    proof {
        assert(out@ =~= spec_encode_message(m@));
    }
    Ok(out)
}

/// Reads a message back from its canonical byte encoding.
///
/// Returns the decoded message exactly when the bytes are the encoding of
/// one, and `EncodingError` otherwise.
pub fn decode_message(bytes: &[u8]) -> (r: Result<Message, HandleError>)
    ensures
        r matches Ok(m) ==> spec_decode_message(bytes@) == Some(m@),
        r is Err ==> spec_decode_message(bytes@) is None && r == Err::<Message, HandleError>(
            HandleError::EncodingError,
        ),
{
    if bytes.len() < 4 {
        return Err(HandleError::EncodingError);
    }
    let n1 = u32_from_le_bytes(slice_subrange(bytes, 0, 4)) as usize;
    if bytes.len() < 8 || bytes.len() - 8 < n1 {
        return Err(HandleError::EncodingError);
    }
    let sb = slice_subrange(bytes, 4, 4 + n1);
    let n2 = u32_from_le_bytes(slice_subrange(bytes, 4 + n1, 8 + n1)) as usize;
    if bytes.len() - 8 - n1 != n2 {
        return Err(HandleError::EncodingError);
    }
    let cb = slice_subrange(bytes, 8 + n1, 8 + n1 + n2);
    let sender = match str_from_utf8(sb) {
        Some(s) => s.to_owned(),
        None => {
            return Err(HandleError::EncodingError);
        },
    };
    let content = match str_from_utf8(cb) {
        Some(s) => s.to_owned(),
        None => {
            return Err(HandleError::EncodingError);
        },
    };
    Ok(Message { sender, content })
}

/// Law: decoding is the exact inverse of encoding.  Every message that fits
/// on the wire comes back unchanged from its own encoding.
pub proof fn lemma_message_round_trip(m: MessageV)
    requires
        spec_message_encodable(m),
    ensures
        spec_decode_message(spec_encode_message(m)) == Some(m),
{
    broadcast use encode_utf8_valid_utf8, encode_utf8_decode_utf8;

    lemma_auto_spec_u32_to_from_le_bytes();
    let sb = encode_utf8(m.sender);
    let cb = encode_utf8(m.content);
    let b = spec_encode_message(m);
    let n1 = sb.len() as int;
    let n2 = cb.len() as int;
    assert(b.subrange(0, 4) =~= spec_u32_to_le_bytes(sb.len() as u32));
    assert(b.len() == 8 + n1 + n2);
    assert(b.subrange(4, 4 + n1) =~= sb);
    assert(b.subrange(4 + n1, 8 + n1) =~= spec_u32_to_le_bytes(cb.len() as u32));
    assert(b.subrange(8 + n1, 8 + n1 + n2) =~= cb);
    assert(spec_decode_message(b) == Some(MessageV { sender: decode_utf8(sb), content: decode_utf8(cb) }));
    assert(spec_decode_message(b)->Some_0 =~= m);
}

} // verus!
