//! Typed answers: the alert flags of a status packet with what its
//! parameters stand for.

use crate::alert::AlertFlags;
use crate::endian::{read_u16_le, read_u32_le, u16_from_le, u32_from_le};
use crate::error::{InvalidParameterCount, ReadError};
use crate::packet::{result_view, StatusPacket, StatusPacketView};
use vstd::prelude::*;
use vstd::slice::slice_subrange;

verus! {

/// The answer of one device: who answered, how the device is, and the value.
#[derive(Clone, Debug, PartialEq, Eq)]
pub struct Response<T> {
    /// The device that answered.
    pub motor_id: u8,
    /// The health flags that came with the answer.
    pub alert: AlertFlags,
    /// The value that the parameters stand for.
    pub data: T,
}

impl<T: View> View for Response<T> {
    type V = Response<T::V>;

    open spec fn view(&self) -> Response<T::V> {
        Response { motor_id: self.motor_id, alert: self.alert, data: self.data@ }
    }
}

/// What a device says of itself in answer to a ping.
#[derive(Clone, Copy, Debug, PartialEq, Eq, Structural)]
pub struct Ping {
    /// The model number of the device.
    pub model: u16,
    /// The version of its firmware.
    pub firmware: u8,
}

impl View for Ping {
    type V = Ping;

    open spec fn view(&self) -> Ping {
        *self
    }
}

/// `status` with `data` in place of its parameters.
pub open spec fn respond<V>(status: StatusPacketView, data: V) -> Response<V> {
    Response { motor_id: status.packet_id, alert: AlertFlags { bits: status.alert }, data }
}

/// The error for a status whose parameters are not `expected` bytes.
pub open spec fn wrong_count(status: StatusPacketView, expected: usize) -> ReadError {
    ReadError::InvalidParameterCount(
        InvalidParameterCount { actual: status.parameters.len() as usize, expected },
    )
}

/// `status` itself, if it carries exactly `count` parameter bytes.
pub open spec fn expect_count(status: StatusPacketView, count: usize) -> Result<
    StatusPacketView,
    ReadError,
> {
    if status.parameters.len() == count {
        Ok(status)
    } else {
        Err(wrong_count(status, count))
    }
}

/// The parameters of `status` as they are, if they are `count` bytes.
pub open spec fn bytes_response(status: StatusPacketView, count: usize) -> Result<
    Response<Seq<u8>>,
    ReadError,
> {
    if status.parameters.len() == count {
        Ok(respond(status, status.parameters))
    } else {
        Err(wrong_count(status, count))
    }
}

/// The acknowledgement that `status` is, if it carries no parameters.
pub open spec fn ack_response(status: StatusPacketView) -> Result<Response<()>, ReadError> {
    if status.parameters.len() == 0 {
        Ok(respond(status, ()))
    } else {
        Err(wrong_count(status, 0))
    }
}

/// The parameter of `status` as an 8-bit value, if it is one byte.
pub open spec fn u8_response(status: StatusPacketView) -> Result<Response<u8>, ReadError> {
    if status.parameters.len() == 1 {
        Ok(respond(status, status.parameters[0]))
    } else {
        Err(wrong_count(status, 1))
    }
}

/// The parameters of `status` as a 16-bit value, if they are two bytes.
pub open spec fn u16_response(status: StatusPacketView) -> Result<Response<u16>, ReadError> {
    if status.parameters.len() == 2 {
        Ok(respond(status, u16_from_le(status.parameters)))
    } else {
        Err(wrong_count(status, 2))
    }
}

/// The parameters of `status` as a 32-bit value, if they are four bytes.
pub open spec fn u32_response(status: StatusPacketView) -> Result<Response<u32>, ReadError> {
    if status.parameters.len() == 4 {
        Ok(respond(status, u32_from_le(status.parameters)))
    } else {
        Err(wrong_count(status, 4))
    }
}

/// The parameters of `status` as the answer to a ping, if they are three
/// bytes: the model number, then the firmware version.
pub open spec fn ping_response(status: StatusPacketView) -> Result<Response<Ping>, ReadError> {
    if status.parameters.len() == 3 {
        Ok(
            respond(
                status,
                Ping {
                    model: u16_from_le(status.parameters.take(2)),
                    firmware: status.parameters[2],
                },
            ),
        )
    } else {
        Err(wrong_count(status, 3))
    }
}

impl StatusPacket {
    /// The health flags of the device.
    pub fn alert_flags(&self) -> (flags: AlertFlags)
        ensures
            flags == (AlertFlags { bits: self.alert }),
    {
        AlertFlags::from_bits(self.alert)
    }

    fn wrong_count(&self, expected: usize) -> (error: ReadError)
        ensures
            error == wrong_count(self@, expected),
    {
        ReadError::InvalidParameterCount(
            InvalidParameterCount { actual: self.parameters.len(), expected },
        )
    }

    /// Accepts the packet only with exactly `count` parameter bytes.
    pub fn expect_parameters(self, count: usize) -> (r: Result<StatusPacket, ReadError>)
        ensures
            result_view(r) == expect_count(self@, count),
    {
        if self.parameters.len() == count {
            Ok(self)
        } else {
            Err(self.wrong_count(count))
        }
    }

    /// The answer with the parameters as they are; they have to be `count` bytes.
    pub fn into_bytes(self, count: usize) -> (r: Result<Response<Vec<u8>>, ReadError>)
        ensures
            result_view(r) == bytes_response(self@, count),
    {
        if self.parameters.len() == count {
            Ok(Response { motor_id: self.packet_id, alert: self.alert_flags(), data: self.parameters })
        } else {
            Err(self.wrong_count(count))
        }
    }

    /// The answer as an acknowledgement; there may be no parameters.
    pub fn to_ack(&self) -> (r: Result<Response<()>, ReadError>)
        ensures
            r == ack_response(self@),
    {
        if self.parameters.len() == 0 {
            Ok(Response { motor_id: self.packet_id, alert: self.alert_flags(), data: () })
        } else {
            Err(self.wrong_count(0))
        }
    }

    /// The answer as an 8-bit value; the parameters have to be one byte.
    pub fn to_u8(&self) -> (r: Result<Response<u8>, ReadError>)
        ensures
            r == u8_response(self@),
    {
        if self.parameters.len() == 1 {
            Ok(
                Response {
                    motor_id: self.packet_id,
                    alert: self.alert_flags(),
                    data: self.parameters[0],
                },
            )
        } else {
            Err(self.wrong_count(1))
        }
    }

    /// The answer as a 16-bit value; the parameters have to be two bytes.
    pub fn to_u16(&self) -> (r: Result<Response<u16>, ReadError>)
        ensures
            r == u16_response(self@),
    {
        if self.parameters.len() == 2 {
            match read_u16_le(self.parameters.as_slice()) {
                Ok(data) => Ok(
                    Response { motor_id: self.packet_id, alert: self.alert_flags(), data },
                ),
                Err(_) => Err(self.wrong_count(2)),
            }
        } else {
            Err(self.wrong_count(2))
        }
    }

    /// The answer as a 32-bit value; the parameters have to be four bytes.
    pub fn to_u32(&self) -> (r: Result<Response<u32>, ReadError>)
        ensures
            r == u32_response(self@),
    {
        if self.parameters.len() == 4 {
            match read_u32_le(self.parameters.as_slice()) {
                Ok(data) => Ok(
                    Response { motor_id: self.packet_id, alert: self.alert_flags(), data },
                ),
                Err(_) => Err(self.wrong_count(4)),
            }
        } else {
            Err(self.wrong_count(4))
        }
    }

    /// The answer to a ping; the parameters have to be three bytes.
    pub fn to_ping(&self) -> (r: Result<Response<Ping>, ReadError>)
        ensures
            r == ping_response(self@),
    {
        if self.parameters.len() == 3 {
            let parameters = self.parameters.as_slice();
            assert(parameters@.subrange(0, 2) =~= self.parameters@.take(2));
            match read_u16_le(slice_subrange(parameters, 0, 2)) {
                Ok(model) => Ok(
                    Response {
                        motor_id: self.packet_id,
                        alert: self.alert_flags(),
                        data: Ping { model, firmware: self.parameters[2] },
                    },
                ),
                Err(_) => Err(self.wrong_count(3)),
            }
        } else {
            Err(self.wrong_count(3))
        }
    }
}

} // verus!
