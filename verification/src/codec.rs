//! Fixed-size frame codec.
//!
//! Every message on the wire is exactly [`MSG_SIZE`] bytes: the UTF-8 bytes
//! of the text, left-aligned, padded with zero bytes. Decoding takes the
//! bytes before the first zero, drops trailing spaces, and reads them as
//! UTF-8, replacing invalid sequences rather than failing.

use vstd::prelude::*;
use vstd::utf8::*;

verus! {

/// Number of bytes in every wire frame.
pub const MSG_SIZE: usize = 32;

/// Why encoding a payload can fail.
#[derive(Clone, Copy, PartialEq, Eq, Structural, Debug)]
pub enum CodecError {
    /// The UTF-8 form of the text does not fit in one frame.
    PayloadTooLarge,
}

/// Index of the first zero byte of `s`, or `s.len()` when there is none:
/// where a frame's payload ends.
pub open spec fn zero_pos(s: Seq<u8>) -> int
    decreases s.len(),
{
    if s.len() == 0 {
        0
    } else if s[0] == 0 {
        0
    } else {
        1 + zero_pos(s.drop_first())
    }
}

/// `i` is where the payload of `s` ends: no zero byte before it, and a zero
/// byte (or the end of `s`) at it.
pub open spec fn is_payload_end(s: Seq<u8>, i: int) -> bool {
    &&& 0 <= i <= s.len()
    &&& forall|j: int| 0 <= j < i ==> s[j] != 0
    &&& i < s.len() ==> s[i] == 0
}

pub proof fn lemma_zero_pos(s: Seq<u8>)
    ensures
        is_payload_end(s, zero_pos(s)),
    decreases s.len(),
{
    if s.len() == 0 {
    } else if s[0] == 0 {
    } else {
        lemma_zero_pos(s.drop_first());
        assert forall|j: int| 0 <= j < zero_pos(s) implies s[j] != 0 by {
            if j > 0 {
                assert(s.drop_first()[j - 1] != 0);
            }
        }
    }
}

pub proof fn lemma_zero_pos_unique(s: Seq<u8>, i: int)
    requires
        is_payload_end(s, i),
    ensures
        zero_pos(s) == i,
{
    lemma_zero_pos(s);
    let z = zero_pos(s);
    if z < i {
        assert(s[z] != 0);
    } else if i < z {
        assert(s[i] != 0);
    }
}

/// `s` without its trailing space bytes.
pub open spec fn trim_spaces(s: Seq<u8>) -> Seq<u8>
    decreases s.len(),
{
    if s.len() > 0 && s.last() == 0x20u8 {
        trim_spaces(s.drop_last())
    } else {
        s
    }
}

/// What decoding a frame yields before the text conversion: the bytes before
/// the first zero, without trailing spaces.
pub open spec fn decoded_payload(frame: Seq<u8>) -> Seq<u8> {
    trim_spaces(frame.take(zero_pos(frame)))
}

/// A payload of `len` bytes padded with zero bytes to a full frame.
pub open spec fn pad_to_frame(payload: Seq<u8>) -> Seq<u8> {
    payload + Seq::new((MSG_SIZE - payload.len()) as nat, |i: int| 0u8)
}

/// The frame that encodes text `t`: its UTF-8 bytes, zero-padded.
pub open spec fn frame_of(t: Seq<char>) -> Seq<u8> {
    pad_to_frame(encode_utf8(t))
}

/// What `String::from_utf8_lossy` returns for a byte sequence.
pub uninterp spec fn lossy_utf8(bytes: Seq<u8>) -> Seq<char>;

/// Relies on `String::from_utf8_lossy`: reads bytes as UTF-8, replacing
/// invalid sequences with U+FFFD; valid UTF-8 is decoded unchanged.
#[verifier::external_body]
pub(crate) fn lossy_text(bytes: &Vec<u8>) -> (text: String)
    ensures
        text@ == lossy_utf8(bytes@),
        valid_utf8(bytes@) ==> text@ == decode_utf8(bytes@),
{
    String::from_utf8_lossy(bytes.as_slice()).into_owned()
}

/// Encodes `text` into one frame: its UTF-8 bytes followed by zero padding.
/// Rejects text whose UTF-8 form exceeds the frame size rather than
/// truncating it, which could split a multi-byte sequence.
pub fn encode(text: &str) -> (res: Result<Vec<u8>, CodecError>)
    ensures
        match res {
            Ok(frame) => {
                &&& encode_utf8(text@).len() <= MSG_SIZE
                &&& frame@.len() == MSG_SIZE
                &&& frame@ == frame_of(text@)
            },
            Err(e) => {
                &&& e == CodecError::PayloadTooLarge
                &&& encode_utf8(text@).len() > MSG_SIZE
            },
        },
{
    let bytes = text.as_bytes();
    if bytes.len() > MSG_SIZE {
        return Err(CodecError::PayloadTooLarge);
    }
    let mut frame: Vec<u8> = Vec::new();
    let mut i: usize = 0;
    while i < bytes.len()
        invariant
            i <= bytes.len() <= MSG_SIZE,
            bytes@ == encode_utf8(text@),
            frame@ == bytes@.take(i as int),
        decreases bytes.len() - i,
    {
        frame.push(bytes[i]);
        i += 1;
    }
    assert(frame@ == encode_utf8(text@));
    while frame.len() < MSG_SIZE
        invariant
            encode_utf8(text@).len() <= frame@.len() <= MSG_SIZE,
            frame@.take(encode_utf8(text@).len() as int) == encode_utf8(text@),
            forall|j: int| encode_utf8(text@).len() <= j < frame@.len() ==> frame@[j] == 0u8,
        decreases MSG_SIZE - frame.len(),
    {
        frame.push(0u8);
    }
    proof {
        assert(frame@ =~= frame_of(text@));
    }
    Ok(frame)
}

/// The payload of a frame: the bytes before the first zero byte, with
/// trailing spaces removed.
pub fn decode_payload(frame: &Vec<u8>) -> (payload: Vec<u8>)
    ensures
        payload@ == decoded_payload(frame@),
{
    let mut end: usize = 0;
    while end < frame.len() && frame[end] != 0
        invariant
            0 <= end <= frame@.len(),
            forall|j: int| 0 <= j < end ==> frame@[j] != 0,
        decreases frame.len() - end,
    {
        end += 1;
    }
    proof {
        lemma_zero_pos_unique(frame@, end as int);
    }
    let mut e = end;
    while e > 0 && frame[e - 1] == 0x20u8
        invariant
            0 <= e <= end <= frame@.len(),
            trim_spaces(frame@.take(end as int)) == trim_spaces(frame@.take(e as int)),
        decreases e,
    {
        proof {
            assert(frame@.take(e as int).drop_last() =~= frame@.take(e - 1));
        }
        e -= 1;
    }
    proof {
        assert(trim_spaces(frame@.take(e as int)) == frame@.take(e as int));
    }
    let mut payload: Vec<u8> = Vec::new();
    let mut i: usize = 0;
    while i < e
        invariant
            0 <= i <= e <= frame@.len(),
            payload@ == frame@.take(e as int).take(i as int),
        decreases e - i,
    {
        proof {
            assert(frame@.take(e as int).take(i + 1) =~= frame@.take(e as int).take(
                i as int,
            ).push(frame@[i as int]));
        }
        payload.push(frame[i]);
        i += 1;
    }
    proof {
        assert(payload@ =~= frame@.take(e as int));
    }
    payload
}

/// Decodes a frame to text: the payload bytes read as UTF-8, with invalid
/// sequences replaced rather than failing.
pub fn decode(frame: &Vec<u8>) -> (text: String)
    ensures
        text@ == lossy_utf8(decoded_payload(frame@)),
        valid_utf8(decoded_payload(frame@)) ==> text@ == decode_utf8(decoded_payload(frame@)),
{
    let payload = decode_payload(frame);
    lossy_text(&payload)
}

/// Round trip: a text whose UTF-8 form fits in a frame, holds no zero byte,
/// and does not end in a space byte is recovered exactly by decoding its
/// encoded frame.
pub proof fn lemma_round_trip(t: Seq<char>)
    requires
        encode_utf8(t).len() <= MSG_SIZE,
        forall|j: int| 0 <= j < encode_utf8(t).len() ==> encode_utf8(t)[j] != 0,
        encode_utf8(t).len() > 0 ==> encode_utf8(t).last() != 0x20u8,
    ensures
        decoded_payload(frame_of(t)) == encode_utf8(t),
        valid_utf8(decoded_payload(frame_of(t))),
        decode_utf8(decoded_payload(frame_of(t))) == t,
{
    let eb = encode_utf8(t);
    let frame = frame_of(t);
    assert(is_payload_end(frame, eb.len() as int));
    lemma_zero_pos_unique(frame, eb.len() as int);
    assert(frame.take(eb.len() as int) =~= eb);
    assert(trim_spaces(eb) == eb);
    encode_utf8_valid_utf8(t);
    encode_utf8_decode_utf8(t);
}

} // verus!
