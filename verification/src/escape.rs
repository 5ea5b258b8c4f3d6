//! The escape codec: from the raw bytes on the line to the resolved bytes of
//! one frame.
//!
//! Bytes before the start marker are discarded.  The marker and the two
//! length bytes are taken literally.  After them, in escape mode, the byte
//! `0x7D` announces that the next raw byte is to be exclusive-ORed with
//! `0x20`; the pair resolves to that single byte.

use crate::zb_frames::START_DELIMITER;
use vstd::prelude::*;

verus! {

/// Announces an escaped byte.
pub const ESCAPE: u8 = 0x7D;

/// Exclusive-OR mask that recovers an escaped byte.
pub const ESCAPE_MASK: u8 = 0x20;

/// Start marker plus the two length bytes: the part that is never escaped.
pub const HEADER_SIZE: usize = 3;

/// Value of the radio's `AP` parameter that turns escaping on.
pub const ESCAPED_API_MODE: i32 = 2;

/// Whether the given `AP` parameter asks for escape handling.
pub open spec fn escape_active(ap_param: i32) -> bool {
    ap_param == ESCAPED_API_MODE
}

/// What the codec has made of the raw bytes so far.
pub struct Resolved {
    /// The frame as resolved so far, from the start marker on; empty while
    /// the marker has not been seen.
    pub image: Seq<u8>,
    /// Whether the last raw byte was an escape marker that still waits for
    /// its partner.
    pub pending: bool,
}

impl Resolved {
    /// Nothing seen yet: the codec waits for a start marker.
    pub open spec fn start() -> Resolved {
        Resolved { image: Seq::empty(), pending: false }
    }

    /// The state after one more raw byte.
    pub open spec fn next(self, byte: u8, escape: bool) -> Resolved {
        if self.image.len() == 0 {
            if byte == START_DELIMITER {
                Resolved { image: seq![byte], pending: false }
            } else {
                self
            }
        } else if self.pending {
            Resolved { image: self.image.push(byte ^ ESCAPE_MASK), pending: false }
        } else if escape && self.image.len() >= HEADER_SIZE && byte == ESCAPE {
            Resolved { image: self.image, pending: true }
        } else {
            Resolved { image: self.image.push(byte), pending: false }
        }
    }
}

/// The state of the codec after the whole of `stream`, starting from nothing.
pub open spec fn resolve(stream: Seq<u8>, escape: bool) -> Resolved
    decreases stream.len(),
{
    if stream.len() == 0 {
        Resolved::start()
    } else {
        resolve(stream.drop_last(), escape).next(stream.last(), escape)
    }
}

/// One more raw byte never takes back what was resolved: the image only
/// grows, by at most one byte.  In particular a start marker inside a frame
/// does not start the frame anew.
pub proof fn lemma_next_extends(before: Resolved, byte: u8, escape: bool)
    ensures
        before.image.is_prefix_of(before.next(byte, escape).image),
        before.next(byte, escape).image.len() <= before.image.len() + 1,
{
    let after = before.next(byte, escape);
    assert(before.image =~= after.image.subrange(0, before.image.len() as int));
}

/// What a shorter stream resolves to is a prefix of what any extension of it
/// resolves to.
pub proof fn lemma_resolve_prefix(stream: Seq<u8>, n: int, escape: bool)
    requires
        0 <= n <= stream.len(),
    ensures
        resolve(stream.take(n), escape).image.is_prefix_of(resolve(stream, escape).image),
    decreases stream.len() - n,
{
    if n == stream.len() {
        assert(stream.take(n) =~= stream);
    } else {
        let shorter = stream.drop_last();
        lemma_resolve_prefix(shorter, n, escape);
        assert(shorter.take(n) =~= stream.take(n));
        lemma_next_extends(resolve(shorter, escape), stream.last(), escape);
        let a = resolve(stream.take(n), escape).image;
        let b = resolve(shorter, escape).image;
        let c = resolve(stream, escape).image;
        assert(a =~= c.subrange(0, a.len() as int));
    }
}

/// Resolving a stream with one more byte is one more step of the codec.
pub proof fn lemma_resolve_push(stream: Seq<u8>, byte: u8, escape: bool)
    ensures
        resolve(stream.push(byte), escape) == resolve(stream, escape).next(byte, escape),
{
    assert(stream.push(byte).drop_last() =~= stream);
}

/// In escape mode, after the length field, an escape marker followed by any
/// byte resolves to that byte exclusive-ORed with `0x20`, and to nothing
/// else.
pub proof fn lemma_escaped_pair(before: Resolved, byte: u8)
    requires
        before.image.len() >= HEADER_SIZE,
        !before.pending,
    ensures
        before.next(ESCAPE, true).next(byte, true) == (Resolved {
            image: before.image.push(byte ^ ESCAPE_MASK),
            pending: false,
        }),
{
}

/// In escape mode, after the length field, the pair `0x7D 0x5E` resolves to
/// the single byte `0x7E`: the frame goes on, it does not start anew.
pub proof fn lemma_escaped_start_marker(before: Resolved)
    requires
        before.image.len() >= HEADER_SIZE,
        !before.pending,
    ensures
        before.next(0x7D, true).next(0x5E, true) == (Resolved {
            image: before.image.push(0x7E),
            pending: false,
        }),
{
    assert(0x5Eu8 ^ 0x20u8 == 0x7Eu8) by (bit_vector);
}

} // verus!
