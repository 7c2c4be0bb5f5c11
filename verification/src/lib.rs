//! Host-side driver logic for a half-duplex, multi-drop servo bus.
//!
//! The crate holds everything that can be decided without touching the serial
//! line: the wire codec, the frame model and the transfer engine.  The engine
//! is written as a state machine: each operation of [`Bus`] takes the event
//! that the channel reported last and answers with the next thing to do on
//! the channel.  The caller owns the channel and the clock.
//!
//! From the wire upwards:
//!
//! * [`endian`], [`checksum`] and [`bytestuff`] are the codec: integers in
//!   byte buffers, the check at the end of a frame, and the escaping of the
//!   frame marker;
//! * [`packet`] says what a frame carries and how it lies on the wire;
//! * [`receive`] finds frames in the stream of bytes that arrive;
//! * [`bus`] is the engine, with the one transfer that every other is made
//!   of;
//! * [`instructions`] are the operations of the protocol: ping and scan,
//!   reboot, read, write, and their synchronized forms, for which
//!   [`collect`] keeps the answers in order;
//! * [`response`], [`alert`] and [`error`] are what comes back;
//! * [`control_table`] names the registers of the devices.
//!
//! Every function is verified against its contract, and the properties that
//! hold across functions are stated and proved beside them.

pub mod alert;
pub mod bus;
pub mod bytestuff;
pub mod checksum;
pub mod collect;
pub mod control_table;
pub mod endian;
pub mod error;
pub mod instructions;
pub mod packet;
pub mod receive;
pub mod response;

pub use bus::{Bus, Event, Phase, Step};
pub use error::{
    CallerError, ChannelError, InvalidParameterCount, ReadError, TransferError, WriteError,
};
pub use packet::{Packet, StatusPacket};
pub use response::{Ping, Response};
