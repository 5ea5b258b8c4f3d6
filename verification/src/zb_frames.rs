//! Outbound frames and the checksum shared with the decoder.
//!
//! A frame on the wire is `0x7E | lenHi | lenLo | content | checksum`, where
//! the two length bytes hold the big-endian length of `content`.

use crate::error::FrameError;
use vstd::prelude::*;

verus! {

/// First byte of every frame.
pub const START_DELIMITER: u8 = 0x7E;

/// Type byte of a Transmit Data request.
pub const TRANSMIT_REQUEST: u8 = 0x10;

/// Type byte of a Local AT Command request.
pub const LOCAL_AT_COMMAND_TYPE: u8 = 0x08;

/// Correlation id used when the caller gives none.
pub const DEFAULT_FRAME_ID: u8 = 0x42;

/// Longest content that fits in one outbound frame.
pub const MAX_CONTENT_LEN: usize = 0xFF;

/// Sum of all bytes of `content`, without any wrap-around.
pub open spec fn byte_sum(content: Seq<u8>) -> nat
    decreases content.len(),
{
    if content.len() == 0 {
        0
    } else {
        byte_sum(content.drop_last()) + content.last() as nat
    }
}

/// The checksum byte that belongs to `content`: `0xFF - (sum mod 256)`.
pub open spec fn checksum_of(content: Seq<u8>) -> u8 {
    (0xFF - byte_sum(content) % 256) as u8
}

/// Whether `checksum` validates `content`: `(sum + checksum) mod 256 == 0xFF`.
pub open spec fn checksum_matches(content: Seq<u8>, checksum: u8) -> bool {
    (byte_sum(content) + checksum as nat) % 256 == 0xFF
}

/// The computed checksum always validates the content it was computed from.
pub proof fn lemma_checksum_round_trip(content: Seq<u8>)
    ensures
        checksum_matches(content, checksum_of(content)),
{
}

/// Exactly one checksum byte validates a given content: the computed one.
pub proof fn lemma_checksum_unique(content: Seq<u8>, checksum: u8)
    ensures
        checksum_matches(content, checksum) <==> checksum == checksum_of(content),
{
}

/// Sum of the bytes of `content` modulo 256.
fn sum_mod_256(content: &[u8]) -> (sum: u32)
    ensures
        sum == byte_sum(content@) % 256,
{
    let mut sum: u32 = 0;
    let mut i: usize = 0;
    while i < content.len()
        invariant
            i <= content.len(),
            sum == byte_sum(content@.take(i as int)) % 256,
        decreases content.len() - i,
    {
        proof {
            assert(content@.take(i + 1).drop_last() =~= content@.take(i as int));
        }
        sum = (sum + content[i] as u32) % 256;
        i += 1;
    }
    proof {
        assert(content@.take(i as int) =~= content@);
    }
    sum
}

/// Computes the checksum byte of `content`.
pub fn compute_checksum(content: &[u8]) -> (checksum: u8)
    ensures
        checksum == checksum_of(content@),
        checksum_matches(content@, checksum),
{
    let sum: u32 = sum_mod_256(content);
    (0xFF - sum) as u8
}

/// Tells whether `checksum` validates `content`.
pub fn check_checksum(content: &[u8], checksum: u8) -> (valid: bool)
    ensures
        valid == checksum_matches(content@, checksum),
{
    let sum: u32 = sum_mod_256(content);
    (sum + checksum as u32) % 256 == 0xFF
}

/// The complete frame that carries `content`: start marker, big-endian
/// 16-bit content length, the content itself, and its checksum.
pub open spec fn api_frame(content: Seq<u8>) -> Seq<u8> {
    seq![START_DELIMITER, (content.len() / 256) as u8, (content.len() % 256) as u8] + content
        + seq![checksum_of(content)]
}

/// Content of a Local AT Command request: type byte, correlation id (the
/// default when none is given), the command code, and the parameter bytes if
/// there are any.
pub open spec fn local_at_content(
    command: Seq<u8>,
    parameter: Option<Seq<u8>>,
    frame_id: Option<u8>,
) -> Seq<u8> {
    seq![
        LOCAL_AT_COMMAND_TYPE,
        match frame_id {
            Some(id) => id,
            None => DEFAULT_FRAME_ID,
        },
    ] + command + match parameter {
        Some(bytes) => bytes,
        None => Seq::empty(),
    }
}

/// The 64-bit destination that stands for "every node".
pub open spec fn broadcast_addr64() -> Seq<u8> {
    seq![0xFFu8, 0xFFu8, 0xFFu8, 0xFFu8, 0xFFu8, 0xFFu8, 0xFFu8, 0xFFu8]
}

/// The 16-bit destination that stands for "not known".
pub open spec fn unknown_addr16() -> Seq<u8> {
    seq![0xFFu8, 0xFEu8]
}

/// Content of a Transmit Data request: type byte, correlation id, 64-bit and
/// 16-bit destination (each replaced by its default when absent), broadcast
/// radius 0, transmit options 0, and the payload as it is.
pub open spec fn transmit_content(
    address: Option<Seq<u8>>,
    address16: Option<Seq<u8>>,
    data: Seq<u8>,
    frame_id: u8,
) -> Seq<u8> {
    seq![TRANSMIT_REQUEST, frame_id] + match address {
        Some(a64) => a64,
        None => broadcast_addr64(),
    } + match address16 {
        Some(a16) => a16,
        None => unknown_addr16(),
    } + seq![0u8, 0u8] + data
}

/// The bytes behind an optional slice.
pub open spec fn opt_bytes(bytes: Option<&[u8]>) -> Option<Seq<u8>> {
    match bytes {
        Some(b) => Some(b@),
        None => None,
    }
}

/// The bytes behind an optional 64-bit address.
pub open spec fn opt_addr64(address: Option<&[u8; 8]>) -> Option<Seq<u8>> {
    match address {
        Some(a) => Some(a@),
        None => None,
    }
}

/// The bytes behind an optional 16-bit address.
pub open spec fn opt_addr16(address: Option<&[u8; 2]>) -> Option<Seq<u8>> {
    match address {
        Some(a) => Some(a@),
        None => None,
    }
}

/// Wraps `content` into a frame.  Content longer than 255 bytes is rejected.
pub fn make_api_frame(content: &Vec<u8>) -> (r: Result<Vec<u8>, FrameError>)
    ensures
        match r {
            Ok(frame) => content.len() <= MAX_CONTENT_LEN && frame@ == api_frame(content@),
            Err(e) => content.len() > MAX_CONTENT_LEN && e == FrameError::Length,
        },
{
    if content.len() > MAX_CONTENT_LEN {
        return Err(FrameError::Length);
    }
    let length: u8 = content.len() as u8;
    let checksum: u8 = compute_checksum(content.as_slice());
    let mut frame: Vec<u8> = vec![START_DELIMITER, 0x00, length];
    frame.extend_from_slice(content.as_slice());
    frame.push(checksum);
    proof {
        assert(frame@ =~= api_frame(content@));
    }
    Ok(frame)
}

/// Builds a Local AT Command request.
///
/// The command code must be exactly two bytes; the correlation id defaults to
/// [`DEFAULT_FRAME_ID`].
pub fn local_at_command(command: &[u8], parameter: Option<&[u8]>, frame_id: Option<u8>) -> (r:
    Result<Vec<u8>, FrameError>)
    ensures
        match r {
            Ok(frame) => {
                &&& command.len() == 2
                &&& local_at_content(command@, opt_bytes(parameter), frame_id).len()
                    <= MAX_CONTENT_LEN
                &&& frame@ == api_frame(local_at_content(command@, opt_bytes(parameter), frame_id))
            },
            Err(e) => if command.len() != 2 {
                e == FrameError::Argument
            } else {
                &&& e == FrameError::Length
                &&& local_at_content(command@, opt_bytes(parameter), frame_id).len()
                    > MAX_CONTENT_LEN
            },
        },
{
    if command.len() != 2 {
        return Err(FrameError::Argument);
    }
    let fid: u8 = match frame_id {
        Some(id) => id,
        None => DEFAULT_FRAME_ID,
    };
    let mut content: Vec<u8> = vec![LOCAL_AT_COMMAND_TYPE];
    content.push(fid);
    content.extend_from_slice(command);
    match parameter {
        Some(bytes) => content.extend_from_slice(bytes),
        None => {},
    }
    proof {
        assert(content@ =~= local_at_content(command@, opt_bytes(parameter), frame_id));
    }
    make_api_frame(&content)
}

/// Builds a Transmit Data request.
///
/// At least one of the two destination addresses must be given.  An absent
/// 64-bit address becomes the broadcast address, an absent 16-bit address
/// `0xFFFE`.  The payload is appended as it is: reserved bytes in it are not
/// escaped.
pub fn send_data(
    address: Option<&[u8; 8]>,
    address16: Option<&[u8; 2]>,
    data: &[u8],
    frame_id: u8,
) -> (r: Result<Vec<u8>, FrameError>)
    ensures
        match r {
            Ok(frame) => {
                &&& address is Some || address16 is Some
                &&& data.len() + 14 <= MAX_CONTENT_LEN
                &&& frame@ == api_frame(
                    transmit_content(opt_addr64(address), opt_addr16(address16), data@, frame_id),
                )
            },
            Err(e) => if address is None && address16 is None {
                e == FrameError::Argument
            } else {
                e == FrameError::Length && data.len() + 14 > MAX_CONTENT_LEN
            },
        },
{
    if address.is_none() && address16.is_none() {
        return Err(FrameError::Argument);
    }
    let mut content: Vec<u8> = vec![TRANSMIT_REQUEST];
    content.push(frame_id);
    match address {
        Some(a64) => content.extend_from_slice(a64.as_slice()),
        None => {
            let mut i: usize = 0;
            while i < 8
                invariant
                    i <= 8,
                    content@ =~= seq![TRANSMIT_REQUEST, frame_id] + broadcast_addr64().take(
                        i as int,
                    ),
                decreases 8 - i,
            {
                content.push(0xFF);
                i += 1;
            }
        },
    }
    match address16 {
        Some(a16) => content.extend_from_slice(a16.as_slice()),
        None => {
            content.push(0xFF);
            content.push(0xFE);
        },
    }
    content.push(0);
    content.push(0);
    content.extend_from_slice(data);
    proof {
        assert(content@ =~= transmit_content(
            opt_addr64(address),
            opt_addr16(address16),
            data@,
            frame_id,
        ));
    }
    make_api_frame(&content)
}

} // verus!
