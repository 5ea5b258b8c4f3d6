//! Codec for the serial API-mode protocol of XBee/Zigbee-style mesh radio
//! modules.
//!
//! Outbound frames are built by [`zb_frames`]; inbound frames are recognised
//! by [`zb_parse_frame`], one byte at a time.  Every function is verified
//! against a mathematical description of the wire format.

pub mod at_data;
pub mod error;
pub mod escape;
pub mod text;
pub mod zb_frames;
pub mod zb_parse_frame;
