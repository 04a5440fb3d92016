//! Control of a multi-motor parallel mechanism over a serial-style motor bus:
//! the packet codec, the decisions of the transport link, and the
//! record/replay controller. Every item is verified.

pub mod crc;
pub mod packet;
pub mod joints;
pub mod link;
pub mod motion;
