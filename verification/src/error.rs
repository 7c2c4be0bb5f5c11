//! The structured errors of the driver.
//!
//! Three things can go wrong with a transfer.  The caller can ask for
//! something that the protocol has no frame for: that is found before
//! anything reaches the channel.  The instruction can fail to go out.  Or the
//! answer can fail to come in, or come in damaged.  A device that answers
//! with alert flags set has answered: the flags are part of the response and
//! no error.

use vstd::prelude::*;

verus! {

/// A byte sequence has another length than the operation calls for.
#[derive(Clone, Copy, Debug, PartialEq, Eq, Structural)]
pub struct InvalidParameterCount {
    /// The number of bytes that were found.
    pub actual: usize,
    /// The number of bytes that were called for.
    pub expected: usize,
}

impl InvalidParameterCount {
    /// Accepts `actual` only where it equals `expected`.
    pub fn check(actual: usize, expected: usize) -> (r: Result<(), InvalidParameterCount>)
        ensures
            r == (if actual == expected {
                Ok::<(), InvalidParameterCount>(())
            } else {
                Err(InvalidParameterCount { actual, expected })
            }),
    {
        if actual == expected {
            Ok(())
        } else {
            Err(InvalidParameterCount { actual, expected })
        }
    }
}

/// What the channel reported when a read or a write on it failed.
#[derive(Clone, Copy, Debug, PartialEq, Eq, Structural)]
pub enum ChannelError {
    /// The device behind the channel is gone.
    Disconnected,
    /// The channel may not be used by this process.
    PermissionDenied,
    /// Any other failure, with the code that the system gave for it.
    Other { code: i32 },
}

/// A request that is refused before anything is sent.
#[derive(Clone, Copy, Debug, PartialEq, Eq, Structural)]
pub enum CallerError {
    /// The instruction needs one device to answer, or the identifier stands
    /// for no device at all.
    InvalidPacketId { packet_id: u8 },
    /// A synchronized write names another number of values than of devices.
    LengthMismatch { identifiers: usize, values: usize },
    /// The values of a synchronized write are not all of one width.
    UnevenValues { index: usize, actual: usize, expected: usize },
    /// The event does not follow from the step that was answered last.
    UnexpectedEvent,
}

/// An instruction that could not be sent.
#[derive(Clone, Copy, Debug, PartialEq, Eq, Structural)]
pub enum WriteError {
    /// The frame is longer than any frame of the protocol.
    PacketTooLarge,
    /// The frame is longer than the write buffer.
    BufferTooSmall { required: usize, capacity: usize },
    /// The channel failed while the frame was written.
    Channel(ChannelError),
}

/// An answer that did not arrive, or not in one piece.
#[derive(Clone, Copy, Debug, PartialEq, Eq, Structural)]
pub enum ReadError {
    /// The channel failed while the answer was awaited.
    Channel(ChannelError),
    /// No complete frame from the device arrived in time.
    Timeout,
    /// The bytes do not start with the frame marker.
    MissingHeader,
    /// The length field leaves no room for an opcode and the checksum.
    InvalidLength { declared: usize },
    /// The bytes at hand are not as many as the length field announces.
    SizeMismatch { declared: usize, available: usize },
    /// The frame that the length field announces is longer than the read buffer.
    BufferTooSmall { required: usize, capacity: usize },
    /// The checksum in the frame is not that of the bytes before it.
    InvalidChecksum { message: u16, computed: u16 },
    /// The body holds the marker's first three bytes without a stuffing byte.
    InvalidStuffing,
    /// The frame is no status frame.
    InvalidInstruction { actual: u8, expected: u8 },
    /// The answer carries another number of parameter bytes than was asked for.
    InvalidParameterCount(InvalidParameterCount),
}

/// Why a transfer failed.
#[derive(Clone, Copy, Debug, PartialEq, Eq, Structural)]
pub enum TransferError {
    /// The request was refused; nothing was sent.
    Caller(CallerError),
    /// The instruction did not go out.
    Write(WriteError),
    /// The answer did not come in.
    Read(ReadError),
}

} // verus!
