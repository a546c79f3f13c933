//! Decoders for the boot headers that a kernel or disk image may carry:
//! Multiboot, Multiboot2 and the Linux boot protocol.
//!
//! Every decoder is a total function of the bytes it is handed. Its contract
//! equates the result with a specification function over `Seq<u8>`.

pub mod report;
pub mod window;
pub mod parsers;
