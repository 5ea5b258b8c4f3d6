use vstd::prelude::*;

verus! {

/// Why an encode or decode operation was abandoned.
#[derive(Clone, Copy, Debug, PartialEq, Eq, Structural)]
pub enum FrameError {
    /// An argument does not have the shape the operation needs.
    Argument,
    /// Frame content is longer than 255 bytes.
    Length,
    /// Bytes that must be text are not, or a coded byte has no meaning.
    Encoding,
    /// The type byte names no known frame kind; it is carried along.
    UnknownFrameType(u8),
    /// The trailing checksum does not match the content.
    Checksum,
    /// The byte source failed or ended before the frame was complete.
    Io,
    /// The accumulated content exceeds the 65535-byte guard.  The decoder
    /// never reports it: the length bytes cannot declare that much.
    FrameTooLarge,
}

} // verus!
