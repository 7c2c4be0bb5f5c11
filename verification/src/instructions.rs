//! The instructions of the protocol, each as one operation of the bus.

pub mod instruction_id;
pub mod packet_id;
pub mod read;
pub mod answer;
pub mod ping;
pub mod reboot;
pub mod write;
pub mod sync_write;
pub mod sync_read;
