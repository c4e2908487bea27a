//! Boot handoff core: classification of the firmware memory map into a
//! usable-memory inventory, a primitive framebuffer text console, and the
//! firmware-to-kernel ownership-transfer protocol.

pub mod bootstrap;
pub mod console;
pub mod decimal;
pub mod memory;
pub mod report;
pub mod surface;
