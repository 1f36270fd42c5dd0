//! Reassembly of detector frames from UDP packets, and the paced replay of
//! such frames, as pure state machines over bytes and plain values.

pub mod address;
pub mod control;
pub mod coordinator;
pub mod deluge;
pub mod detector;
pub mod frame;
pub mod header;
pub mod listener;
pub mod pool;
pub mod runs;
pub mod trigger;
pub mod wire;

pub use address::get_interface_addreses_with_prefix;
pub use detector::SlsDetectorType;
pub use header::SlsDetectorHeader;
pub use pool::allocate_image_buffer;
pub use trigger::DelugeTrigger;
