//! Inbound frames: the data they carry and the decoder that recognises them.
//!
//! The decoder is a state machine that is handed the raw bytes of the line
//! one at a time ([`ParseState::step`]).  It waits for a start marker, takes
//! the two length bytes literally, resolves escapes in what follows, and as
//! soon as the resolved bytes decide the matter it answers with a frame or
//! with the first error.  What it answers is stated over the resolved image
//! of the frame by [`image_outcome`].
//!
//! Offsets count from the start marker, which has offset 0.

use crate::at_data::{at_data, data_type_of, parse_at_data, ATCommandDataTag};
use crate::error::FrameError;
use crate::escape::{escape_active, resolve, Resolved, ESCAPE, ESCAPED_API_MODE, ESCAPE_MASK, HEADER_SIZE};
use crate::escape::{lemma_resolve_prefix, lemma_resolve_push};
use crate::text::{all_ascii, ascii_chars, lemma_ascii_is_utf8, string_from_utf8};
use crate::zb_frames::{check_checksum, checksum_matches, lemma_checksum_unique, START_DELIMITER};
use vstd::prelude::*;
use vstd::slice::*;
use vstd::utf8::*;

verus! {

/// Role of a node in the mesh, as a Node Discovery record reports it.
#[allow(non_camel_case_types)]
#[derive(Clone, Copy, Debug, PartialEq, Eq, Structural)]
pub enum DeviceType {
    COORDINATOR,
    ROUTER,
    ENDDEVICE,
}

/// Status byte of a command response.
#[allow(non_camel_case_types)]
#[derive(Clone, Copy, Debug, PartialEq, Eq, Structural)]
pub enum CommandStatus {
    OK,
    Error,
    InvalidCommand,
    InvalidParameter,
    Unknown,
}

/// The status that a wire byte stands for, if it stands for one.
pub open spec fn status_of(byte: u8) -> Option<CommandStatus> {
    if byte == 0 {
        Some(CommandStatus::OK)
    } else if byte == 1 {
        Some(CommandStatus::Error)
    } else if byte == 2 {
        Some(CommandStatus::InvalidCommand)
    } else if byte == 3 {
        Some(CommandStatus::InvalidParameter)
    } else {
        None
    }
}

impl TryFrom<u8> for CommandStatus {
    type Error = FrameError;

    fn try_from(v: u8) -> (r: Result<Self, FrameError>) {
        match v {
            0 => Ok(CommandStatus::OK),
            1 => Ok(CommandStatus::Error),
            2 => Ok(CommandStatus::InvalidCommand),
            3 => Ok(CommandStatus::InvalidParameter),
            _ => Err(FrameError::Encoding),
        }
    }
}

impl vstd::std_specs::convert::TryFromSpecImpl<u8> for CommandStatus {
    open spec fn obeys_try_from_spec() -> bool {
        true
    }

    open spec fn try_from_spec(v: u8) -> Result<Self, FrameError> {
        match status_of(v) {
            Some(status) => Ok(status),
            None => Err(FrameError::Encoding),
        }
    }
}

/// One peer of the mesh, as reported in answer to a Node Discovery command.
#[derive(Clone, Debug, PartialEq, Eq)]
pub struct NodeDiscoveryData {
    pub addr64: Vec<u8>,
    pub node_name: String,
    pub device_type: DeviceType,
    pub status: CommandStatus,
    pub digidevice_type: Option<Vec<u8>>,
    pub last_hop_rssi: Option<u8>,
}

/// Mathematical content of a [`NodeDiscoveryData`].
pub struct NodeDiscoveryView {
    pub addr64: Seq<u8>,
    pub node_name: Seq<char>,
    pub device_type: DeviceType,
    pub status: CommandStatus,
    pub digidevice_type: Option<Seq<u8>>,
    pub last_hop_rssi: Option<u8>,
}

impl View for NodeDiscoveryData {
    type V = NodeDiscoveryView;

    open spec fn view(&self) -> NodeDiscoveryView {
        NodeDiscoveryView {
            addr64: self.addr64@,
            node_name: self.node_name@,
            device_type: self.device_type,
            status: self.status,
            digidevice_type: match self.digidevice_type {
                Some(bytes) => Some(bytes@),
                None => None,
            },
            last_hop_rssi: self.last_hop_rssi,
        }
    }
}

/// Interpreted value of a Local AT Command Response.
#[derive(Clone, Debug, PartialEq, Eq)]
pub enum ATCommandData {
    String(String),
    Integer(i32),
    NodeDiscovery(NodeDiscoveryData),
    Celsius(i32),
    Bytes,
    Unknown,
}

/// Mathematical content of an [`ATCommandData`].
pub enum ATCommandDataView {
    String(Seq<char>),
    Integer(i32),
    NodeDiscovery(NodeDiscoveryView),
    Celsius(i32),
    Bytes,
    Unknown,
}

impl View for ATCommandData {
    type V = ATCommandDataView;

    open spec fn view(&self) -> ATCommandDataView {
        match self {
            ATCommandData::String(s) => ATCommandDataView::String(s@),
            ATCommandData::Integer(n) => ATCommandDataView::Integer(*n),
            ATCommandData::NodeDiscovery(nd) => ATCommandDataView::NodeDiscovery(nd@),
            ATCommandData::Celsius(n) => ATCommandDataView::Celsius(*n),
            ATCommandData::Bytes => ATCommandDataView::Bytes,
            ATCommandData::Unknown => ATCommandDataView::Unknown,
        }
    }
}

/// Payload received from a peer, with the peer's addresses.
#[derive(Clone, Debug, PartialEq, Eq)]
pub struct ResponseFrame {
    pub addr64: Vec<u8>,
    pub addr16: Vec<u8>,
    pub data: Vec<u8>,
}

/// Mathematical content of a [`ResponseFrame`].
pub struct ResponseFrameView {
    pub addr64: Seq<u8>,
    pub addr16: Seq<u8>,
    pub data: Seq<u8>,
}

impl ResponseFrameView {
    /// The long address has eight bytes and the short address two.
    pub open spec fn wf(self) -> bool {
        self.addr64.len() == 8 && self.addr16.len() == 2
    }
}

impl View for ResponseFrame {
    type V = ResponseFrameView;

    open spec fn view(&self) -> ResponseFrameView {
        ResponseFrameView { addr64: self.addr64@, addr16: self.addr16@, data: self.data@ }
    }
}

/// Answer of the local radio to an AT command.
#[derive(Clone, Debug, PartialEq, Eq)]
pub struct LocalATCommandFrame {
    pub frame_id: u8,
    pub command: String,
    pub status: CommandStatus,
    pub data_bytes: Option<Vec<u8>>,
    pub data: Option<ATCommandData>,
}

/// Mathematical content of a [`LocalATCommandFrame`].
pub struct LocalATCommandFrameView {
    pub frame_id: u8,
    pub command: Seq<char>,
    pub status: CommandStatus,
    pub data_bytes: Option<Seq<u8>>,
    pub data: Option<ATCommandDataView>,
}

impl LocalATCommandFrameView {
    /// The command code is two ASCII characters, the status is one that the
    /// wire can carry, and the value is interpreted exactly when it is there.
    pub open spec fn wf(self) -> bool {
        &&& self.command.len() == 2
        &&& is_ascii_chars(self.command)
        &&& self.status != CommandStatus::Unknown
        &&& self.data_bytes is Some <==> self.data is Some
    }
}

impl View for LocalATCommandFrame {
    type V = LocalATCommandFrameView;

    open spec fn view(&self) -> LocalATCommandFrameView {
        LocalATCommandFrameView {
            frame_id: self.frame_id,
            command: self.command@,
            status: self.status,
            data_bytes: match self.data_bytes {
                Some(bytes) => Some(bytes@),
                None => None,
            },
            data: match self.data {
                Some(value) => Some(value@),
                None => None,
            },
        }
    }
}

/// One decoded inbound frame.
#[derive(Clone, Debug, PartialEq, Eq)]
pub enum Frame {
    Response(ResponseFrame),
    LocalATCommand(LocalATCommandFrame),
    ManyToOneRRI,
}

/// Mathematical content of a [`Frame`].
pub enum FrameView {
    Response(ResponseFrameView),
    LocalATCommand(LocalATCommandFrameView),
    ManyToOneRRI,
}

impl FrameView {
    /// Whatever the frame carries is well-formed.
    pub open spec fn wf(self) -> bool {
        match self {
            FrameView::Response(frame) => frame.wf(),
            FrameView::LocalATCommand(frame) => frame.wf(),
            FrameView::ManyToOneRRI => true,
        }
    }
}

impl View for Frame {
    type V = FrameView;

    open spec fn view(&self) -> FrameView {
        match self {
            Frame::Response(frame) => FrameView::Response(frame@),
            Frame::LocalATCommand(frame) => FrameView::LocalATCommand(frame@),
            Frame::ManyToOneRRI => FrameView::ManyToOneRRI,
        }
    }
}

/// Type byte of an Explicit Receive frame.
pub const EXPLICIT_RX_TYPE: u8 = 0x91;

/// Type byte of a Local AT Command Response.
pub const LOCAL_AT_COMMAND_RESP_TYPE: u8 = 0x88;

/// Type byte of a Many-to-One Route Record Indicator.
pub const MTO_RRI_TYPE: u8 = 0xa3;

/// Offset of the type byte.
pub const FRAME_TYPE: usize = 3;

/// Offset of the long address in the frames that carry one.
pub const ADDR64: usize = 4;

/// Offset of the short address in the frames that carry one.
pub const ADDR16: usize = 12;

/// Offset of the seven reserved bytes of an Explicit Receive frame.
pub const IGNORE91: usize = 14;

/// Offset of the payload of an Explicit Receive frame.
pub const DATA91: usize = 21;

/// Offset of the correlation id of a Local AT Command Response.
pub const FRAME_ID88: usize = 4;

/// Offset of the command code of a Local AT Command Response.
pub const COMMAND88: usize = 5;

/// Offset of the status byte of a Local AT Command Response.
pub const STATUS88: usize = 7;

/// Offset of the value of a Local AT Command Response.
pub const DATA88: usize = 8;

/// Offset just past the one reserved byte of a Many-to-One Route Record
/// Indicator, where its checksum stands.
pub const END_A3: usize = 15;

/// Guard on the number of content bytes of one frame.
pub const MAX_FRAME_SIZE: usize = 0xffff;

/// Content length that the two length bytes declare to the decoder:
/// `first * 255 + second`.
pub open spec fn declared_length(first: u8, second: u8) -> int {
    first * 255 + second
}

/// What decoding has come to: nothing yet, a frame, or an error.
pub type Outcome = Option<Result<FrameView, FrameError>>;

/// Whether the executable answer `r` is the mathematical outcome `expected`.
pub open spec fn outcome_is(r: Option<Result<Frame, FrameError>>, expected: Outcome) -> bool {
    match expected {
        None => r is None,
        Some(Ok(frame)) => r matches Some(Ok(f)) && f@ == frame,
        Some(Err(error)) => r matches Some(Err(e)) && e == error,
    }
}

/// Offset just past the declared content.
pub open spec fn declared_end(image: Seq<u8>) -> int {
    HEADER_SIZE + declared_length(image[1], image[2])
}

/// Offset of the checksum byte of a frame whose fixed fields end at
/// `fixed_end` and whose variable part, if any, runs to the declared end.
pub open spec fn checksum_offset(image: Seq<u8>, fixed_end: int) -> int {
    if declared_end(image) > fixed_end {
        declared_end(image)
    } else {
        fixed_end
    }
}

/// The bytes that enter the checksum when the checksum byte stands at
/// `checksum_at`: those from the type byte up to the declared end, as far as
/// they have been read, the checksum byte being the last one read.
pub open spec fn checksum_input(image: Seq<u8>, checksum_at: int) -> Seq<u8> {
    if declared_end(image) <= checksum_at {
        image.subrange(FRAME_TYPE as int, declared_end(image))
    } else {
        image.subrange(FRAME_TYPE as int, checksum_at + 1)
    }
}

/// Outcome of the checksum stage for a checksum byte at `checksum_at`.
pub open spec fn checksum_valid(image: Seq<u8>, checksum_at: int) -> bool {
    checksum_matches(checksum_input(image, checksum_at), image[checksum_at])
}

/// Outcome for an image whose type byte says Explicit Receive.
///
/// Long address at [4, 12), short address at [12, 14), seven reserved bytes,
/// payload from 21 to the declared end, then the checksum.
pub open spec fn explicit_rx_outcome(image: Seq<u8>) -> Outcome {
    let end = checksum_offset(image, DATA91 as int);
    if image.len() <= end {
        None
    } else if !checksum_valid(image, end) {
        Some(Err(FrameError::Checksum))
    } else {
        Some(
            Ok(
                FrameView::Response(
                    ResponseFrameView {
                        addr64: image.subrange(ADDR64 as int, ADDR16 as int),
                        addr16: image.subrange(ADDR16 as int, IGNORE91 as int),
                        data: image.subrange(DATA91 as int, end),
                    },
                ),
            ),
        )
    }
}

/// The command code of a Local AT Command Response.
pub open spec fn command_bytes(image: Seq<u8>) -> Seq<u8> {
    image.subrange(COMMAND88 as int, STATUS88 as int)
}

/// Outcome for an image whose type byte says Local AT Command Response.
///
/// Correlation id at 4, command code at [5, 7), status at 7, value from 8
/// to the declared end if that lies beyond 8, then the checksum.  Each
/// field is judged as soon as it is complete: the command code must be
/// ASCII, the status byte known, and the value of a text command well-formed
/// UTF-8, before the checksum is so much as read.
pub open spec fn local_at_outcome(image: Seq<u8>) -> Outcome {
    let end = checksum_offset(image, DATA88 as int);
    let command = ascii_chars(command_bytes(image));
    let value = image.subrange(DATA88 as int, end);
    if image.len() < STATUS88 {
        None
    } else if !all_ascii(command_bytes(image)) {
        Some(Err(FrameError::Encoding))
    } else if image.len() < DATA88 {
        None
    } else if status_of(image[STATUS88 as int]) is None {
        Some(Err(FrameError::Encoding))
    } else if image.len() < end {
        None
    } else if end > DATA88 && at_data(command, value) is Err {
        Some(Err(at_data(command, value)->Err_0))
    } else if image.len() <= end {
        None
    } else if !checksum_valid(image, end) {
        Some(Err(FrameError::Checksum))
    } else {
        Some(
            Ok(
                FrameView::LocalATCommand(
                    LocalATCommandFrameView {
                        frame_id: image[FRAME_ID88 as int],
                        command,
                        status: status_of(image[STATUS88 as int])->Some_0,
                        data_bytes: if end > DATA88 {
                            Some(value)
                        } else {
                            None
                        },
                        data: if end > DATA88 {
                            Some(at_data(command, value)->Ok_0)
                        } else {
                            None
                        },
                    },
                ),
            ),
        )
    }
}

/// Outcome for an image whose type byte says Many-to-One Route Record
/// Indicator: long address, short address and one reserved byte are read and
/// dropped, then the checksum at offset 15.
pub open spec fn mto_rri_outcome(image: Seq<u8>) -> Outcome {
    if image.len() <= END_A3 {
        None
    } else if !checksum_valid(image, END_A3 as int) {
        Some(Err(FrameError::Checksum))
    } else {
        Some(Ok(FrameView::ManyToOneRRI))
    }
}

/// Outcome of decoding, given the resolved image of the frame so far.
///
/// Nothing is decided before the type byte is there.  An unknown type byte
/// is an error at once; a known one hands over to the layout of its kind.
pub open spec fn image_outcome(image: Seq<u8>) -> Outcome {
    if image.len() <= FRAME_TYPE {
        None
    } else if image[FRAME_TYPE as int] == EXPLICIT_RX_TYPE {
        explicit_rx_outcome(image)
    } else if image[FRAME_TYPE as int] == LOCAL_AT_COMMAND_RESP_TYPE {
        local_at_outcome(image)
    } else if image[FRAME_TYPE as int] == MTO_RRI_TYPE {
        mto_rri_outcome(image)
    } else {
        Some(Err(FrameError::UnknownFrameType(image[FRAME_TYPE as int])))
    }
}

/// Outcome of decoding a whole stream of raw bytes from the beginning.
pub open spec fn stream_outcome(stream: Seq<u8>, ap_param: i32) -> Outcome {
    image_outcome(resolve(stream, escape_active(ap_param)).image)
}

/// Computes the declared content length from the two length bytes.
pub fn parse_length(first: u8, second: u8) -> (length: u16)
    ensures
        length == declared_length(first, second),
{
    (first as u16) * 255 + second as u16
}

/// Offset of the checksum byte, computed from the length bytes of `image`.
fn checksum_position(image: &[u8], fixed_end: usize) -> (end: usize)
    requires
        image.len() >= HEADER_SIZE,
        fixed_end <= DATA91,
    ensures
        end == checksum_offset(image@, fixed_end as int),
        end >= fixed_end,
        end <= HEADER_SIZE + 255 * 256,
{
    let declared: usize = HEADER_SIZE + parse_length(image[1], image[2]) as usize;
    if declared > fixed_end {
        declared
    } else {
        fixed_end
    }
}

/// Checks the checksum byte at `checksum_at` against the content before it.
pub fn validate_checksum(image: &[u8], checksum_at: usize) -> (r: Result<(), FrameError>)
    requires
        HEADER_SIZE <= checksum_at < image.len(),
    ensures
        r is Ok <==> checksum_valid(image@, checksum_at as int),
        r matches Err(e) ==> e == FrameError::Checksum,
{
    let declared: usize = HEADER_SIZE + parse_length(image[1], image[2]) as usize;
    let upto: usize = if declared <= checksum_at {
        declared
    } else {
        checksum_at + 1
    };
    if check_checksum(slice_subrange(image, FRAME_TYPE, upto), image[checksum_at]) {
        Ok(())
    } else {
        Err(FrameError::Checksum)
    }
}

/// Judges an image whose type byte says Explicit Receive.
pub fn parse_explicit_rx(image: &[u8]) -> (r: Option<Result<Frame, FrameError>>)
    ensures
        outcome_is(r, explicit_rx_outcome(image@)),
{
    if image.len() <= DATA91 {
        return None;
    }
    let end: usize = checksum_position(image, DATA91);
    if image.len() <= end {
        return None;
    }
    match validate_checksum(image, end) {
        Err(e) => Some(Err(e)),
        Ok(_) => {
            let frame = ResponseFrame {
                addr64: slice_to_vec(slice_subrange(image, ADDR64, ADDR16)),
                addr16: slice_to_vec(slice_subrange(image, ADDR16, IGNORE91)),
                data: slice_to_vec(slice_subrange(image, DATA91, end)),
            };
            Some(Ok(Frame::Response(frame)))
        },
    }
}

/// Judges an image whose type byte says Local AT Command Response.
pub fn parse_local_at_response(image: &[u8]) -> (r: Option<Result<Frame, FrameError>>)
    ensures
        outcome_is(r, local_at_outcome(image@)),
{
    if image.len() < STATUS88 {
        return None;
    }
    proof {
        let code = command_bytes(image@);
        assert(code[0] == image@[COMMAND88 as int] && code[1] == image@[COMMAND88 + 1]);
    }
    if !(image[COMMAND88] < 0x80 && image[COMMAND88 + 1] < 0x80) {
        return Some(Err(FrameError::Encoding));
    }
    if image.len() < DATA88 {
        return None;
    }
    let status: CommandStatus = match CommandStatus::try_from(image[STATUS88]) {
        Ok(status) => status,
        Err(_) => {
            return Some(Err(FrameError::Encoding));
        },
    };
    let end: usize = checksum_position(image, DATA88);
    if image.len() < end {
        return None;
    }
    proof {
        lemma_ascii_is_utf8(command_bytes(image@));
    }
    let command: String = match string_from_utf8(
        slice_to_vec(slice_subrange(image, COMMAND88, STATUS88)),
    ) {
        Ok(command) => command,
        Err(_) => {
            return Some(Err(FrameError::Encoding));
        },
    };
    let mut data_bytes: Option<Vec<u8>> = None;
    let mut data: Option<ATCommandData> = None;
    if end > DATA88 {
        let value: Vec<u8> = slice_to_vec(slice_subrange(image, DATA88, end));
        match parse_at_data(&command, value.as_slice()) {
            Ok(interpreted) => {
                data = Some(interpreted);
            },
            Err(e) => {
                return Some(Err(e));
            },
        }
        data_bytes = Some(value);
    }
    if image.len() <= end {
        return None;
    }
    match validate_checksum(image, end) {
        Err(e) => Some(Err(e)),
        Ok(_) => {
            let frame = LocalATCommandFrame {
                frame_id: image[FRAME_ID88],
                command,
                status,
                data_bytes,
                data,
            };
            Some(Ok(Frame::LocalATCommand(frame)))
        },
    }
}

/// Judges an image whose type byte says Many-to-One Route Record Indicator.
pub fn parse_mto_rri(image: &[u8]) -> (r: Option<Result<Frame, FrameError>>)
    ensures
        outcome_is(r, mto_rri_outcome(image@)),
{
    if image.len() <= END_A3 {
        return None;
    }
    match validate_checksum(image, END_A3) {
        Err(e) => Some(Err(e)),
        Ok(_) => Some(Ok(Frame::ManyToOneRRI)),
    }
}

/// Judges the resolved image of a frame: dispatches on the type byte.
pub fn parse_frame_type(image: &[u8]) -> (r: Option<Result<Frame, FrameError>>)
    ensures
        outcome_is(r, image_outcome(image@)),
{
    if image.len() <= FRAME_TYPE {
        return None;
    }
    let frame_type: u8 = image[FRAME_TYPE];
    if frame_type == EXPLICIT_RX_TYPE {
        parse_explicit_rx(image)
    } else if frame_type == LOCAL_AT_COMMAND_RESP_TYPE {
        parse_local_at_response(image)
    } else if frame_type == MTO_RRI_TYPE {
        parse_mto_rri(image)
    } else {
        Some(Err(FrameError::UnknownFrameType(frame_type)))
    }
}

/// State of the decoder between two raw bytes.
pub struct ParseState {
    /// The radio's `AP` parameter; 2 turns escape handling on.
    pub ap_param: i32,
    /// Whether the last raw byte was an escape marker.
    pub escaped: bool,
    /// The frame as resolved so far, from the start marker on.
    pub resolved: Vec<u8>,
}

impl View for ParseState {
    type V = Resolved;

    open spec fn view(&self) -> Resolved {
        Resolved { image: self.resolved@, pending: self.escaped }
    }
}

impl ParseState {
    /// Between two bytes no frame is complete and no error is due: whatever
    /// was decided has been handed out and the state was reset.
    pub open spec fn wf(&self) -> bool {
        image_outcome(self.resolved@) is None
    }

    /// Whether escape handling is on.
    pub open spec fn escape(&self) -> bool {
        escape_active(self.ap_param)
    }

    /// A decoder that waits for a start marker.
    pub fn new(ap_param: i32) -> (state: ParseState)
        ensures
            state.wf(),
            state.ap_param == ap_param,
            state@ == Resolved::start(),
    {
        ParseState { ap_param, escaped: false, resolved: Vec::new() }
    }

    /// Number of bytes resolved so far, the start marker and the length
    /// bytes included.
    pub fn index(&self) -> (index: usize)
        ensures
            index == self@.image.len(),
    {
        self.resolved.len()
    }

    /// SYNC: drops `byte` unless it is the start marker.
    fn skip_until_magic_byte(&mut self, byte: u8) -> (found: bool)
        requires
            old(self).resolved@.len() == 0,
        ensures
            final(self)@ == old(self)@.next(byte, old(self).escape()),
            final(self).ap_param == old(self).ap_param,
            found == (byte == START_DELIMITER),
    {
        if byte == START_DELIMITER {
            self.resolved.push(byte);
            self.escaped = false;
            proof {
                assert(self.resolved@ =~= seq![byte]);
            }
            true
        } else {
            false
        }
    }

    /// Takes one raw byte and resolves it.
    ///
    /// Returns the byte that was added to the image.  Returns `None` when
    /// nothing was added: `byte` was dropped in search of the start marker,
    /// or it was an escape marker and its partner is still to come.
    pub fn unescape_byte(&mut self, byte: u8) -> (r: Option<u8>)
        ensures
            final(self)@ == old(self)@.next(byte, old(self).escape()),
            final(self).ap_param == old(self).ap_param,
            match r {
                Some(b) => final(self)@.image == old(self)@.image.push(b),
                None => final(self)@.image == old(self)@.image,
            },
    {
        if self.resolved.len() == 0 {
            if self.skip_until_magic_byte(byte) {
                Some(byte)
            } else {
                None
            }
        } else if self.escaped {
            let b: u8 = byte ^ ESCAPE_MASK;
            self.escaped = false;
            self.resolved.push(b);
            Some(b)
        } else if self.ap_param == ESCAPED_API_MODE && self.resolved.len() >= HEADER_SIZE && byte
            == ESCAPE {
            self.escaped = true;
            None
        } else {
            self.resolved.push(byte);
            Some(byte)
        }
    }

    /// Hands the decoder the next raw byte of the line.
    ///
    /// Answers `None` while the frame is incomplete, and otherwise the frame
    /// or the first error; the decoder then waits for a start marker again.
    pub fn step(&mut self, byte: u8) -> (r: Option<Result<Frame, FrameError>>)
        ensures
            final(self).ap_param == old(self).ap_param,
            outcome_is(r, step_outcome(old(self)@, byte, old(self).escape())),
            final(self)@ == if r is Some {
                Resolved::start()
            } else {
                old(self)@.next(byte, old(self).escape())
            },
            old(self).wf() ==> final(self).wf(),
            r matches Some(Ok(frame)) ==> frame@.wf(),
    {
        match self.unescape_byte(byte) {
            None => None,
            Some(_) => {
                let r = parse_frame_type(self.resolved.as_slice());
                proof {
                    lemma_frames_well_formed(self.resolved@);
                }
                if r.is_some() {
                    self.resolved.clear();
                    self.escaped = false;
                }
                r
            },
        }
    }
}

/// What the decoder answers to one more raw byte: nothing if the byte added
/// nothing to the image, and otherwise what the longer image decides.
pub open spec fn step_outcome(before: Resolved, byte: u8, escape: bool) -> Outcome {
    let after = before.next(byte, escape);
    if after.image.len() == before.image.len() {
        None
    } else {
        image_outcome(after.image)
    }
}

/// As long as nothing was decided before, the answer to one more byte is
/// what the image decides after it.
pub proof fn lemma_step_outcome(before: Resolved, byte: u8, escape: bool)
    requires
        image_outcome(before.image) is None,
    ensures
        step_outcome(before, byte, escape) == image_outcome(before.next(byte, escape).image),
{
    let after = before.next(byte, escape);
    if after.image.len() == before.image.len() {
        assert(after.image =~= before.image);
    }
}

/// Every frame that decoding yields is well-formed.
pub proof fn lemma_frames_well_formed(image: Seq<u8>)
    ensures
        image_outcome(image) matches Some(Ok(frame)) ==> frame.wf(),
{
    if image_outcome(image) matches Some(Ok(frame)) {
        if image[FRAME_TYPE as int] == LOCAL_AT_COMMAND_RESP_TYPE {
            let code = command_bytes(image);
            let chars = ascii_chars(code);
            assert(is_ascii_chars(chars)) by {
                assert forall|i: int| 0 <= i < chars.len() implies '\0' <= #[trigger] chars[i]
                    <= '\u{7f}' by {
                    assert(code[i] < 0x80);
                }
            }
        }
    }
}

/// Decodes the first frame of `input`.
///
/// Bytes before the first start marker are skipped; bytes after the frame
/// are not looked at.  If `input` ends before the outcome is decided, the
/// byte source has failed: the answer is [`FrameError::Io`].
pub fn parse_frame(input: &[u8], ap_param: i32) -> (r: Result<Frame, FrameError>)
    ensures
        match stream_outcome(input@, ap_param) {
            Some(Ok(frame)) => r is Ok && r->Ok_0@ == frame && frame.wf(),
            Some(Err(error)) => r is Err && r->Err_0 == error,
            None => r is Err && r->Err_0 == FrameError::Io,
        },
{
    let mut state = ParseState::new(ap_param);
    let mut i: usize = 0;
    while i < input.len()
        invariant
            i <= input.len(),
            state.wf(),
            state.ap_param == ap_param,
            state@ == resolve(input@.take(i as int), escape_active(ap_param)),
        decreases input.len() - i,
    {
        proof {
            lemma_resolve_push(input@.take(i as int), input@[i as int], escape_active(ap_param));
            assert(input@.take(i as int).push(input@[i as int]) =~= input@.take(i + 1));
        }
        proof {
            lemma_step_outcome(state@, input@[i as int], escape_active(ap_param));
        }
        match state.step(input[i]) {
            Some(outcome) => {
                proof {
                    lemma_resolve_prefix(input@, i + 1, escape_active(ap_param));
                    lemma_outcome_stable(
                        resolve(input@.take(i + 1), escape_active(ap_param)).image,
                        resolve(input@, escape_active(ap_param)).image,
                    );
                }
                return outcome;
            },
            None => {},
        }
        i += 1;
    }
    proof {
        assert(input@.take(i as int) =~= input@);
    }
    Err(FrameError::Io)
}

/// Once the outcome is decided, bytes that follow do not change it.
pub proof fn lemma_outcome_stable(image: Seq<u8>, longer: Seq<u8>)
    requires
        image.is_prefix_of(longer),
        image_outcome(image) is Some,
    ensures
        image_outcome(longer) == image_outcome(image),
{
    assert(forall|i: int| 0 <= i < image.len() ==> image[i] == longer[i]);
    assert(declared_end(image) == declared_end(longer));
    let kind = image[FRAME_TYPE as int];
    if kind == EXPLICIT_RX_TYPE {
        let end = checksum_offset(image, DATA91 as int);
        assert(checksum_input(image, end) =~= checksum_input(longer, end));
        assert(image.subrange(ADDR64 as int, ADDR16 as int) =~= longer.subrange(
            ADDR64 as int,
            ADDR16 as int,
        ));
        assert(image.subrange(ADDR16 as int, IGNORE91 as int) =~= longer.subrange(
            ADDR16 as int,
            IGNORE91 as int,
        ));
        assert(image.subrange(DATA91 as int, end) =~= longer.subrange(DATA91 as int, end));
    } else if kind == LOCAL_AT_COMMAND_RESP_TYPE {
        let end = checksum_offset(image, DATA88 as int);
        assert(command_bytes(image) =~= command_bytes(longer));
        if image.len() >= end {
            assert(image.subrange(DATA88 as int, end) =~= longer.subrange(DATA88 as int, end));
        }
        if image.len() > end {
            assert(checksum_input(image, end) =~= checksum_input(longer, end));
        }
    } else if kind == MTO_RRI_TYPE {
        assert(checksum_input(image, END_A3 as int) =~= checksum_input(longer, END_A3 as int));
    }
}

/// A type byte that names none of the three known kinds is an error as soon
/// as it is resolved, whatever the length bytes say.
pub proof fn lemma_unknown_frame_type(first: u8, second: u8, kind: u8, ap_param: i32)
    requires
        kind != EXPLICIT_RX_TYPE,
        kind != LOCAL_AT_COMMAND_RESP_TYPE,
        kind != MTO_RRI_TYPE,
        !(escape_active(ap_param) && kind == ESCAPE),
    ensures
        stream_outcome(seq![START_DELIMITER, first, second, kind], ap_param) == Some(
            Err::<FrameView, FrameError>(FrameError::UnknownFrameType(kind)),
        ),
{
    let escape = escape_active(ap_param);
    let s0 = Seq::<u8>::empty();
    let s1 = s0.push(START_DELIMITER);
    let s2 = s1.push(first);
    let s3 = s2.push(second);
    let s4 = s3.push(kind);
    lemma_resolve_push(s0, START_DELIMITER, escape);
    lemma_resolve_push(s1, first, escape);
    lemma_resolve_push(s2, second, escape);
    lemma_resolve_push(s3, kind, escape);
    assert(s4 =~= seq![START_DELIMITER, first, second, kind]);
    assert(resolve(s1, escape).image =~= seq![START_DELIMITER]);
    assert(resolve(s4, escape).image =~= seq![START_DELIMITER, first, second, kind]);
}

/// A complete, valid frame whose trailing byte is replaced by any other
/// value fails the checksum, and yields no frame.
///
/// The trailing byte must lie past the declared content; otherwise it would
/// enter its own checksum.
pub proof fn lemma_corrupted_checksum_rejected(image: Seq<u8>, corrupted: u8)
    requires
        image_outcome(image) matches Some(Ok(_)),
        image_outcome(image.drop_last()) is None,
        declared_end(image) < image.len(),
        corrupted != image.last(),
    ensures
        image_outcome(image.drop_last().push(corrupted)) == Some(
            Err::<FrameView, FrameError>(FrameError::Checksum),
        ),
{
    let changed = image.drop_last().push(corrupted);
    let shorter = image.drop_last();
    let last = image.len() - 1;
    assert(forall|i: int| 0 <= i < last ==> changed[i] == image[i] && shorter[i] == image[i]);
    assert(declared_end(changed) == declared_end(image));
    assert(declared_end(shorter) == declared_end(image));
    let kind = image[FRAME_TYPE as int];
    if kind == EXPLICIT_RX_TYPE {
        let end = checksum_offset(image, DATA91 as int);
        assert(checksum_input(image, end) =~= checksum_input(changed, end));
        lemma_checksum_unique(checksum_input(image, end), image[end]);
        lemma_checksum_unique(checksum_input(image, end), corrupted);
    } else if kind == LOCAL_AT_COMMAND_RESP_TYPE {
        let end = checksum_offset(image, DATA88 as int);
        assert(command_bytes(image) =~= command_bytes(changed));
        assert(command_bytes(image) =~= command_bytes(shorter));
        assert(image.subrange(DATA88 as int, end) =~= shorter.subrange(DATA88 as int, end));
        assert(image.subrange(DATA88 as int, end) =~= changed.subrange(DATA88 as int, end));
        assert(checksum_input(image, end) =~= checksum_input(changed, end));
        lemma_checksum_unique(checksum_input(image, end), image[end]);
        lemma_checksum_unique(checksum_input(image, end), corrupted);
    } else {
        assert(checksum_input(image, END_A3 as int) =~= checksum_input(changed, END_A3 as int));
        lemma_checksum_unique(checksum_input(image, END_A3 as int), image[END_A3 as int]);
        lemma_checksum_unique(checksum_input(image, END_A3 as int), corrupted);
    }
}

/// Bytes before the first start marker do not matter: a stream decodes as it
/// does without them.
pub proof fn lemma_leading_bytes_skipped(skipped: Seq<u8>, stream: Seq<u8>, ap_param: i32)
    requires
        forall|i: int| 0 <= i < skipped.len() ==> skipped[i] != START_DELIMITER,
    ensures
        resolve(skipped + stream, escape_active(ap_param)) == resolve(
            stream,
            escape_active(ap_param),
        ),
        stream_outcome(skipped + stream, ap_param) == stream_outcome(stream, ap_param),
    decreases stream.len(), skipped.len(),
{
    let escape = escape_active(ap_param);
    if stream.len() > 0 {
        lemma_leading_bytes_skipped(skipped, stream.drop_last(), ap_param);
        assert((skipped + stream).drop_last() =~= skipped + stream.drop_last());
    } else if skipped.len() > 0 {
        lemma_leading_bytes_skipped(skipped.drop_last(), stream, ap_param);
        assert(skipped + stream =~= skipped);
        assert(skipped.drop_last() + stream =~= skipped.drop_last());
    } else {
        assert(skipped + stream =~= stream);
    }
}

/// Offset of the checksum byte in a complete image, by the kind of frame.
pub open spec fn frame_checksum_offset(image: Seq<u8>) -> int {
    if image[FRAME_TYPE as int] == EXPLICIT_RX_TYPE {
        checksum_offset(image, DATA91 as int)
    } else if image[FRAME_TYPE as int] == LOCAL_AT_COMMAND_RESP_TYPE {
        checksum_offset(image, DATA88 as int)
    } else {
        END_A3 as int
    }
}

/// A frame is handed out only when its checksum byte has been read and
/// validates the content: there are no partial results.
pub proof fn lemma_frame_only_after_valid_checksum(image: Seq<u8>)
    requires
        image_outcome(image) matches Some(Ok(_)),
    ensures
        frame_checksum_offset(image) < image.len(),
        checksum_valid(image, frame_checksum_offset(image)),
{
}

/// The content that enters a checksum never reaches the size guard, and
/// decoding never fails with [`FrameError::FrameTooLarge`].
pub proof fn lemma_guard_never_trips(image: Seq<u8>, checksum_at: int)
    requires
        HEADER_SIZE <= checksum_at < image.len(),
    ensures
        checksum_input(image, checksum_at).len() <= 255 * 256,
        checksum_input(image, checksum_at).len() < MAX_FRAME_SIZE,
        image_outcome(image) != Some(Err::<FrameView, FrameError>(FrameError::FrameTooLarge)),
{
}

/// A complete Local AT Command Response with an ASCII command code, a known
/// status byte and a valid checksum is decoded, whatever its command and its
/// value, but for a text command whose value is not well-formed UTF-8.  The
/// frame holds the fields as they stand in the image, and a value exactly
/// when the declared length reaches beyond the status byte.
pub proof fn lemma_local_at_response_decodes(image: Seq<u8>)
    requires
        image.len() == checksum_offset(image, DATA88 as int) + 1,
        image[FRAME_TYPE as int] == LOCAL_AT_COMMAND_RESP_TYPE,
        all_ascii(command_bytes(image)),
        status_of(image[STATUS88 as int]) is Some,
        checksum_valid(image, checksum_offset(image, DATA88 as int)),
        data_type_of(ascii_chars(command_bytes(image))) == Some(ATCommandDataTag::String)
            ==> valid_utf8(image.subrange(DATA88 as int, checksum_offset(image, DATA88 as int))),
    ensures
        image_outcome(image) matches Some(Ok(FrameView::LocalATCommand(frame))) && {
            let end = checksum_offset(image, DATA88 as int);
            &&& frame.frame_id == image[FRAME_ID88 as int]
            &&& frame.command == ascii_chars(command_bytes(image))
            &&& Some(frame.status) == status_of(image[STATUS88 as int])
            &&& frame.data_bytes == if end > DATA88 {
                Some(image.subrange(DATA88 as int, end))
            } else {
                None
            }
            &&& frame.data is Some <==> end > DATA88
        },
        image_outcome(image.drop_last()) is None,
{
    let end = checksum_offset(image, DATA88 as int);
    let shorter = image.drop_last();
    assert(declared_end(shorter) == declared_end(image));
    assert(command_bytes(shorter) =~= command_bytes(image));
    assert(shorter.subrange(DATA88 as int, end) =~= image.subrange(DATA88 as int, end));
}

} // verus!
