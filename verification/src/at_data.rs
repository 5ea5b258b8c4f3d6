//! Interpretation of the value that a Local AT Command Response carries.
//!
//! The two-character command code selects how the raw value bytes are read:
//! as text, as a temperature, as a Node Discovery record, or not at all.

use crate::error::FrameError;
use crate::text::string_from_utf8;
use crate::zb_parse_frame::{
    status_of, ATCommandData, ATCommandDataView, CommandStatus, DeviceType, NodeDiscoveryData,
    NodeDiscoveryView,
};
use vstd::prelude::*;
use vstd::slice::*;
use vstd::string::*;
use vstd::utf8::*;

verus! {

/// How the value of a command is to be read.
#[derive(Clone, Copy, Debug, PartialEq, Eq, Hash, Structural)]
pub enum ATCommandDataTag {
    String,
    Integer,
    NodeDiscovery,
    Celsius,
    Bytes,
}

/// The fixed table from command code to value type.  Codes it does not list
/// have no entry.
pub open spec fn data_type_of(command: Seq<char>) -> Option<ATCommandDataTag> {
    if command =~= seq!['N', 'D'] {
        Some(ATCommandDataTag::NodeDiscovery)
    } else if command =~= seq!['N', 'I'] || command =~= seq!['V', 'L'] {
        Some(ATCommandDataTag::String)
    } else if command =~= seq!['T', 'P'] {
        Some(ATCommandDataTag::Celsius)
    } else {
        None
    }
}

/// Looks `command` up in the table of value types.
pub fn at_command_to_data_type(command: &str) -> (tag: Option<ATCommandDataTag>)
    ensures
        tag == data_type_of(command@),
{
    if command.unicode_len() != 2 {
        return None;
    }
    let first: char = command.get_char(0);
    let second: char = command.get_char(1);
    if first == 'N' && second == 'D' {
        Some(ATCommandDataTag::NodeDiscovery)
    } else if (first == 'N' && second == 'I') || (first == 'V' && second == 'L') {
        Some(ATCommandDataTag::String)
    } else if first == 'T' && second == 'P' {
        Some(ATCommandDataTag::Celsius)
    } else {
        None
    }
}

/// `256` to the power `len`.
pub open spec fn radix(len: nat) -> int
    decreases len,
{
    if len == 0 {
        1
    } else {
        256 * radix((len - 1) as nat)
    }
}

/// The number that `data` spells in base 256, most significant byte first.
pub open spec fn be_unsigned(data: Seq<u8>) -> int
    decreases data.len(),
{
    if data.len() == 0 {
        0
    } else {
        be_unsigned(data.drop_last()) * 256 + data.last() as int
    }
}

/// The number that `data` spells as a big-endian two's-complement integer:
/// the first byte carries the sign.
pub open spec fn be_signed(data: Seq<u8>) -> int {
    if data.len() > 0 && data[0] >= 0x80 {
        be_unsigned(data) - radix(data.len())
    } else {
        be_unsigned(data)
    }
}

/// The first byte bounds the unsigned value from both sides.
pub proof fn lemma_be_unsigned_bounds(data: Seq<u8>)
    requires
        data.len() > 0,
    ensures
        data[0] * radix((data.len() - 1) as nat) <= be_unsigned(data),
        be_unsigned(data) < (data[0] + 1) * radix((data.len() - 1) as nat),
        radix((data.len() - 1) as nat) > 0,
    decreases data.len(),
{
    let head = data[0] as int;
    if data.len() == 1 {
        assert(data.drop_last().len() == 0);
        assert(be_unsigned(data.drop_last()) == 0);
        assert(radix(0) == 1);
    } else {
        let shorter = data.drop_last();
        lemma_be_unsigned_bounds(shorter);
        assert(shorter[0] == data[0]);
        let r = radix((shorter.len() - 1) as nat);
        let u = be_unsigned(shorter);
        assert(radix((data.len() - 1) as nat) == 256 * r);
        assert(head * (256 * r) == 256 * (head * r)) by (nonlinear_arith);
        assert((head + 1) * (256 * r) == 256 * ((head + 1) * r)) by (nonlinear_arith);
    }
}

/// A big-endian two's-complement value of at most four bytes fits in `i32`.
pub proof fn lemma_be_signed_fits(data: Seq<u8>)
    requires
        1 <= data.len() <= 4,
    ensures
        i32::MIN <= be_signed(data) <= i32::MAX,
        0 <= be_unsigned(data) < radix(data.len()),
        radix(data.len()) == 256 * radix((data.len() - 1) as nat),
        1 <= radix((data.len() - 1) as nat) <= 0x100_0000,
{
    lemma_be_unsigned_bounds(data);
    reveal_with_fuel(radix, 5);
    let head = data[0] as int;
    let r = radix((data.len() - 1) as nat);
    assert(r == 1 || r == 0x100 || r == 0x1_0000 || r == 0x100_0000);
    assert(head * r >= 0 && (head + 1) * r <= 256 * r) by (nonlinear_arith)
        requires
            0 <= head <= 255,
            r > 0,
    ;
    if head >= 0x80 {
        assert(head * r >= 128 * r) by (nonlinear_arith)
            requires
                head >= 128,
                r > 0,
        ;
    } else {
        assert((head + 1) * r <= 128 * r) by (nonlinear_arith)
            requires
                head + 1 <= 128,
                r > 0,
        ;
    }
}

/// Reads one to four bytes as a big-endian two's-complement integer; any
/// other number of bytes has no such reading.
pub fn signed_value(data: &[u8]) -> (value: Option<i32>)
    ensures
        match value {
            Some(v) => 1 <= data.len() <= 4 && v == be_signed(data@),
            None => !(1 <= data.len() <= 4),
        },
{
    if data.len() < 1 || data.len() > 4 {
        return None;
    }
    let mut acc: i64 = 0;
    let mut span: i64 = 1;
    let mut i: usize = 0;
    while i < data.len()
        invariant
            i <= data.len() <= 4,
            acc == be_unsigned(data@.take(i as int)),
            span == radix(i as nat),
            0 <= acc < span,
            1 <= span <= 0x1_0000_0000,
        decreases data.len() - i,
    {
        proof {
            assert(data@.take(i + 1).drop_last() =~= data@.take(i as int));
            reveal_with_fuel(radix, 6);
        }
        acc = acc * 256 + data[i] as i64;
        span = span * 256;
        i += 1;
    }
    proof {
        assert(data@.take(i as int) =~= data@);
        lemma_be_signed_fits(data@);
    }
    if data[0] >= 0x80 {
        Some((acc - span) as i32)
    } else {
        Some(acc as i32)
    }
}

/// Offset of the first zero byte of `data` at or after `from`; an offset past
/// the end if there is none.
pub open spec fn name_end(data: Seq<u8>, from: int) -> int
    decreases data.len() - from,
{
    if from >= data.len() || data[from] == 0 {
        from
    } else {
        name_end(data, from + 1)
    }
}

/// `name_end` is the first zero byte and nothing before it is zero.
pub proof fn lemma_name_end(data: Seq<u8>, from: int, end: int)
    requires
        0 <= from <= end <= data.len(),
        forall|j: int| from <= j < end ==> data[j] != 0,
        end == data.len() || data[end] == 0,
    ensures
        name_end(data, from) == end,
    decreases end - from,
{
    if from < end {
        lemma_name_end(data, from + 1, end);
    }
}

/// The device role that a wire byte stands for, if it stands for one.
pub open spec fn device_type_of(byte: u8) -> Option<DeviceType> {
    if byte == 0 {
        Some(DeviceType::COORDINATOR)
    } else if byte == 1 {
        Some(DeviceType::ROUTER)
    } else if byte == 2 {
        Some(DeviceType::ENDDEVICE)
    } else {
        None
    }
}

/// Offset of the 64-bit address in a Node Discovery record, after the
/// two-byte network address.
pub const ND_ADDR64: usize = 2;

/// Offset of the node name in a Node Discovery record.
pub const ND_NAME: usize = 10;

/// Number of bytes between the end of the node name and the optional tail:
/// the terminator, parent address (2), device type, status, profile id (2)
/// and manufacturer id (2).
pub const ND_AFTER_NAME: usize = 9;

/// The Node Discovery record that `data` holds, if it holds one.
///
/// The record is: network address (2 bytes), 64-bit address (8), node name
/// up to a zero byte, parent network address (2), device type (1), status
/// (1), profile id (2), manufacturer id (2), and then nothing, a signal
/// strength byte, a four-byte vendor device type, or the vendor device type
/// followed by the signal strength.
pub open spec fn node_discovery(data: Seq<u8>) -> Option<NodeDiscoveryView> {
    let end = name_end(data, ND_NAME as int);
    let tail = data.len() - (end + ND_AFTER_NAME);
    let name = data.subrange(ND_NAME as int, end);
    if end + ND_AFTER_NAME > data.len() {
        None
    } else if !valid_utf8(name) {
        None
    } else if device_type_of(data[end + 3]) is None || status_of(data[end + 4]) is None {
        None
    } else if !(tail == 0 || tail == 1 || tail == 4 || tail == 5) {
        None
    } else {
        Some(
            NodeDiscoveryView {
                addr64: data.subrange(ND_ADDR64 as int, ND_NAME as int),
                node_name: decode_utf8(name),
                device_type: device_type_of(data[end + 3])->Some_0,
                status: status_of(data[end + 4])->Some_0,
                digidevice_type: if tail >= 4 {
                    Some(data.subrange(end + 9, end + 13))
                } else {
                    None
                },
                last_hop_rssi: if tail == 1 || tail == 5 {
                    Some(data[data.len() - 1])
                } else {
                    None
                },
            },
        )
    }
}

/// Decodes a device type byte.
pub fn device_type_from(byte: u8) -> (r: Option<DeviceType>)
    ensures
        r == device_type_of(byte),
{
    match byte {
        0 => Some(DeviceType::COORDINATOR),
        1 => Some(DeviceType::ROUTER),
        2 => Some(DeviceType::ENDDEVICE),
        _ => None,
    }
}

/// Reads a Node Discovery record.  Anything that is not a complete record
/// with a well-formed name, a known device type and a known status is an
/// encoding error.
pub fn parse_node_discovery(data: &[u8]) -> (r: Result<NodeDiscoveryData, FrameError>)
    ensures
        match node_discovery(data@) {
            Some(record) => r is Ok && r->Ok_0@ == record,
            None => r is Err && r->Err_0 == FrameError::Encoding,
        },
{
    let len: usize = data.len();
    let mut end: usize = ND_NAME;
    while end < len && data[end] != 0
        invariant
            ND_NAME <= end,
            len == data.len(),
            end <= len || len < ND_NAME,
            forall|j: int| ND_NAME <= j < end ==> data[j] != 0,
        decreases len - end,
    {
        end += 1;
    }
    proof {
        if len >= ND_NAME {
            lemma_name_end(data@, ND_NAME as int, end as int);
        }
    }
    if len < ND_NAME || len - ND_NAME < ND_AFTER_NAME || end > len - ND_AFTER_NAME {
        return Err(FrameError::Encoding);
    }
    let node_name: String = match string_from_utf8(slice_to_vec(slice_subrange(data, ND_NAME, end))) {
        Ok(name) => name,
        Err(_) => {
            return Err(FrameError::Encoding);
        },
    };
    let device_type: DeviceType = match device_type_from(data[end + 3]) {
        Some(kind) => kind,
        None => {
            return Err(FrameError::Encoding);
        },
    };
    let status: CommandStatus = match CommandStatus::try_from(data[end + 4]) {
        Ok(status) => status,
        Err(_) => {
            return Err(FrameError::Encoding);
        },
    };
    let tail: usize = len - (end + ND_AFTER_NAME);
    if !(tail == 0 || tail == 1 || tail == 4 || tail == 5) {
        return Err(FrameError::Encoding);
    }
    let digidevice_type: Option<Vec<u8>> = if tail >= 4 {
        Some(slice_to_vec(slice_subrange(data, end + 9, end + 13)))
    } else {
        None
    };
    let last_hop_rssi: Option<u8> = if tail == 1 || tail == 5 {
        Some(data[len - 1])
    } else {
        None
    };
    Ok(
        NodeDiscoveryData {
            addr64: slice_to_vec(slice_subrange(data, ND_ADDR64, ND_NAME)),
            node_name,
            device_type,
            status,
            digidevice_type,
            last_hop_rssi,
        },
    )
}

/// The interpreted value of `data` under `command`.
///
/// Text commands need well-formed UTF-8: that is the one way to fail.  A
/// temperature is a big-endian two's-complement integer of one to four
/// bytes; a Node Discovery answer is a record.  Every other command, a
/// temperature of any other width, and a Node Discovery answer that holds no
/// record stay opaque.
pub open spec fn at_data(command: Seq<char>, data: Seq<u8>) -> Result<
    ATCommandDataView,
    FrameError,
> {
    match data_type_of(command) {
        Some(ATCommandDataTag::String) => if valid_utf8(data) {
            Ok(ATCommandDataView::String(decode_utf8(data)))
        } else {
            Err(FrameError::Encoding)
        },
        Some(ATCommandDataTag::Celsius) => if 1 <= data.len() <= 4 {
            Ok(ATCommandDataView::Celsius(be_signed(data) as i32))
        } else {
            Ok(ATCommandDataView::Bytes)
        },
        Some(ATCommandDataTag::NodeDiscovery) => match node_discovery(data) {
            Some(record) => Ok(ATCommandDataView::NodeDiscovery(record)),
            None => Ok(ATCommandDataView::Bytes),
        },
        _ => Ok(ATCommandDataView::Bytes),
    }
}

/// Whether the executable result `r` is the mathematical result `expected`.
pub open spec fn data_result_is(
    r: Result<ATCommandData, FrameError>,
    expected: Result<ATCommandDataView, FrameError>,
) -> bool {
    match expected {
        Ok(value) => r is Ok && r->Ok_0@ == value,
        Err(e) => r is Err && r->Err_0 == e,
    }
}

/// Interprets the value bytes of a response to `command`.
pub fn parse_at_data(command: &String, data: &[u8]) -> (r: Result<ATCommandData, FrameError>)
    ensures
        data_result_is(r, at_data(command@, data@)),
{
    match at_command_to_data_type(command.as_str()) {
        Some(ATCommandDataTag::String) => match string_from_utf8(slice_to_vec(data)) {
            Ok(text) => Ok(ATCommandData::String(text)),
            Err(_) => Err(FrameError::Encoding),
        },
        Some(ATCommandDataTag::Celsius) => match signed_value(data) {
            Some(degrees) => Ok(ATCommandData::Celsius(degrees)),
            None => Ok(ATCommandData::Bytes),
        },
        Some(ATCommandDataTag::NodeDiscovery) => match parse_node_discovery(data) {
            Ok(record) => Ok(ATCommandData::NodeDiscovery(record)),
            Err(_) => Ok(ATCommandData::Bytes),
        },
        _ => Ok(ATCommandData::Bytes),
    }
}

/// Interpretation fails for one reason only: a text command whose value is
/// not well-formed UTF-8.  No other command and no other value is an error.
pub proof fn lemma_only_text_values_fail(command: Seq<char>, data: Seq<u8>)
    ensures
        at_data(command, data) is Err <==> data_type_of(command) == Some(
            ATCommandDataTag::String,
        ) && !valid_utf8(data),
        at_data(command, data) matches Err(e) ==> e == FrameError::Encoding,
{
}

} // verus!
