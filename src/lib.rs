//! An owned variable-length record: a fixed header holding an element count,
//! followed by that many signed 32-bit elements, sized once at creation.

pub mod block;
pub mod layout;
pub mod packet;
pub mod text;

pub use block::{get_packet_len, RecordBlock};
pub use layout::{RecordLayout, ELEMENT_SIZE, HEADER_ALIGN, HEADER_SIZE};
pub use packet::{Packet, PacketError, MAX_ELEMENTS};
