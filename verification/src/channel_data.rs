//! The framing of channel data: a four-byte header in front of the payload.
//!
//! The header holds the channel number and the payload's length, each as two
//! bytes with the more significant byte first.

use vstd::prelude::*;
use vstd::slice::slice_subrange;

verus! {

/// The length of the header in bytes.
pub const HEADER_LEN: usize = 4;

/// The longest payload that a frame can carry.
pub const MAX_PAYLOAD_LEN: usize = 0xFFFF;

/// Why a buffer is not a channel-data frame.
#[derive(Clone, Copy, Debug, PartialEq, Eq, Structural)]
pub enum DecodeError {
    /// The buffer is shorter than a header.
    MissingHeader,
    /// The header announces more payload than the buffer holds.
    PayloadTooShort,
}

impl DecodeError {
    pub open spec fn spec_message(&self) -> Seq<char> {
        match *self {
            DecodeError::MissingHeader => "channel data messages are at least 4 bytes long"@,
            DecodeError::PayloadTooShort => "channel data message is shorter than its header says"@,
        }
    }

    /// The error in words.
    pub fn message(&self) -> (text: String)
        ensures
            text@ == self.spec_message(),
    {
        match self {
            DecodeError::MissingHeader => "channel data messages are at least 4 bytes long".to_owned(),
            DecodeError::PayloadTooShort => "channel data message is shorter than its header says".to_owned(),
        }
    }
}

/// The two bytes of `value`, the more significant one first.
pub open spec fn be_bytes(value: u16) -> Seq<u8> {
    seq![(value / 256) as u8, (value % 256) as u8]
}

/// The number whose two bytes are `hi` and `lo`.
pub open spec fn be_value(hi: u8, lo: u8) -> u16 {
    (hi * 256 + lo) as u16
}

/// The header of a frame on `channel` with `len` bytes of payload.
pub open spec fn spec_header(channel: u16, len: u16) -> Seq<u8> {
    be_bytes(channel) + be_bytes(len)
}

/// The frame that carries `payload` on `channel`.
pub open spec fn spec_encode(channel: u16, payload: Seq<u8>) -> Seq<u8>
    recommends
        payload.len() <= MAX_PAYLOAD_LEN,
{
    spec_header(channel, payload.len() as u16) + payload
}

/// The channel and payload that `data` carries, if it is a frame.
///
/// Bytes behind the announced payload are padding and are left out.
pub open spec fn spec_decode(data: Seq<u8>) -> Result<(u16, Seq<u8>), DecodeError> {
    if data.len() < HEADER_LEN {
        Err(DecodeError::MissingHeader)
    } else {
        let channel = be_value(data[0], data[1]);
        let len = be_value(data[2], data[3]);
        if data.len() - HEADER_LEN < len {
            Err(DecodeError::PayloadTooShort)
        } else {
            Ok((channel, data.subrange(HEADER_LEN as int, HEADER_LEN + len)))
        }
    }
}

fn split_u16(value: u16) -> (bytes: (u8, u8))
    ensures
        bytes.0 == value / 256,
        bytes.1 == value % 256,
        seq![bytes.0, bytes.1] == be_bytes(value),
{
    let hi: u8 = (value / 256) as u8;
    let lo: u8 = (value % 256) as u8;
    (hi, lo)
}

fn join_u16(hi: u8, lo: u8) -> (value: u16)
    ensures
        value == be_value(hi, lo),
{
    let wide: u16 = hi as u16;
    wide * 256 + lo as u16
}

/// Writes the header of a frame on `channel` with `payload_len` bytes of
/// payload into the first four bytes of `buffer`, and leaves the rest as it is.
pub fn encode_header_to_slice(buffer: &mut Vec<u8>, channel: u16, payload_len: u16)
    requires
        old(buffer)@.len() >= HEADER_LEN,
    ensures
        final(buffer)@.len() == old(buffer)@.len(),
        final(buffer)@.subrange(0, HEADER_LEN as int) == spec_header(channel, payload_len),
        final(buffer)@.subrange(HEADER_LEN as int, old(buffer)@.len() as int) == old(buffer)@.subrange(
            HEADER_LEN as int,
            old(buffer)@.len() as int,
        ),
{
    let (c_hi, c_lo) = split_u16(channel);
    let (l_hi, l_lo) = split_u16(payload_len);
    buffer.set(0, c_hi);
    buffer.set(1, c_lo);
    buffer.set(2, l_hi);
    buffer.set(3, l_lo);
    assert(buffer@.subrange(0, HEADER_LEN as int) =~= spec_header(channel, payload_len));
    assert(buffer@.subrange(HEADER_LEN as int, old(buffer)@.len() as int) =~= old(buffer)@.subrange(
        HEADER_LEN as int,
        old(buffer)@.len() as int,
    ));
}

/// Frames `payload` for `channel`.
pub fn encode(channel: u16, payload: &[u8]) -> (frame: Vec<u8>)
    requires
        payload@.len() <= MAX_PAYLOAD_LEN,
    ensures
        frame@ == spec_encode(channel, payload@),
{
    let (c_hi, c_lo) = split_u16(channel);
    let (l_hi, l_lo) = split_u16(payload.len() as u16);
    let mut frame: Vec<u8> = Vec::with_capacity(HEADER_LEN + payload.len());
    frame.push(c_hi);
    frame.push(c_lo);
    frame.push(l_hi);
    frame.push(l_lo);
    let mut i: usize = 0;
    while i < payload.len()
        invariant
            i <= payload@.len(),
            frame@.len() == HEADER_LEN + i,
            frame@.subrange(0, HEADER_LEN as int) == spec_header(channel, payload@.len() as u16),
            frame@.subrange(HEADER_LEN as int, HEADER_LEN + i) == payload@.subrange(0, i as int),
        decreases payload@.len() - i,
    {
        let ghost before = frame@;
        frame.push(payload[i]);
        i += 1;
        assert(frame@.subrange(0, HEADER_LEN as int) =~= before.subrange(0, HEADER_LEN as int));
        assert(frame@.subrange(HEADER_LEN as int, HEADER_LEN + i) =~= payload@.subrange(0, i as int)) by {
            assert forall|k: int| 0 <= k < i implies frame@[HEADER_LEN + k] == payload@[k] by {
                if k < i - 1 {
                    assert(before.subrange(HEADER_LEN as int, HEADER_LEN + i - 1)[k] == payload@.subrange(
                        0,
                        i - 1,
                    )[k]);
                }
            }
        }
    }
    assert(frame@ =~= spec_encode(channel, payload@)) by {
        assert(payload@.subrange(0, payload@.len() as int) =~= payload@);
        assert(frame@ =~= frame@.subrange(0, HEADER_LEN as int) + frame@.subrange(
            HEADER_LEN as int,
            frame@.len() as int,
        ));
    }
    frame
}

/// Reads a frame: its channel number and its payload.
pub fn decode(data: &[u8]) -> (r: Result<(u16, &[u8]), DecodeError>)
    ensures
        match r {
            Ok((channel, payload)) => spec_decode(data@) == Ok::<_, DecodeError>((channel, payload@)),
            Err(e) => spec_decode(data@) == Err::<(u16, Seq<u8>), _>(e),
        },
{
    if data.len() < HEADER_LEN {
        return Err(DecodeError::MissingHeader);
    }
    let channel = join_u16(data[0], data[1]);
    let len = join_u16(data[2], data[3]);
    if data.len() - HEADER_LEN < len as usize {
        return Err(DecodeError::PayloadTooShort);
    }
    let payload = slice_subrange(data, HEADER_LEN, HEADER_LEN + len as usize);
    Ok((channel, payload))
}

/// What was framed comes out again: decoding the frame of a payload on a
/// channel gives back that channel and that payload, for every payload that
/// fits a frame.
pub proof fn lemma_decode_inverts_encode(channel: u16, payload: Seq<u8>)
    requires
        payload.len() <= MAX_PAYLOAD_LEN,
    ensures
        spec_decode(spec_encode(channel, payload)) == Ok::<_, DecodeError>((channel, payload)),
{
    let frame = spec_encode(channel, payload);
    let len = payload.len() as u16;
    assert(frame.len() == HEADER_LEN + payload.len());
    assert(frame[0] == (channel / 256) as u8);
    assert(frame[1] == (channel % 256) as u8);
    assert(frame[2] == (len / 256) as u8);
    assert(frame[3] == (len % 256) as u8);
    assert(be_value(frame[0], frame[1]) == channel);
    assert(be_value(frame[2], frame[3]) == len);
    assert(frame.subrange(HEADER_LEN as int, HEADER_LEN + len) =~= payload);
}

} // verus!
