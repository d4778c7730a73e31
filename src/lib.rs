//! Host-side logic for driving a device under test: the framed console
//! protocol (sync markers, CRC-checked responses, fixed-size frames), the
//! strap / reset / JTAG sequences for SRAM loading and life-cycle
//! transitions, and the boot-marker check.

pub mod error;
pub mod boot;
pub mod checksum;
pub mod console;
pub mod frame;
pub mod hw;
pub mod lifecycle;
pub mod response;
