//! The registers of the XM430-W350.
//!
//! Reference: <https://emanual.robotis.com/docs/en/dxl/x/xm430-w350/>

use vstd::prelude::*;

verus! {

/// The address of "model number": 2 bytes.
pub const ADDR_MODEL_NUMBER: u16 = 0;

/// The address of "model information": 4 bytes.
pub const ADDR_MODEL_INFORMATION: u16 = 2;

/// The address of "firmware version": 1 byte.
pub const ADDR_FIRMWARE_VERSION: u16 = 6;

/// The address of "id": 1 byte.
pub const ADDR_ID: u16 = 7;

/// The address of "baud rate": 1 byte.
pub const ADDR_BAUD_RATE: u16 = 8;

/// The address of "drive mode": 2 bytes.
pub const ADDR_DRIVE_MODE: u16 = 10;

/// The address of "operating mode": 1 byte.
pub const ADDR_OPERATING_MODE: u16 = 11;

/// The address of "secondary id": 1 byte.
pub const ADDR_SECONDARY_ID: u16 = 12;

/// The address of "protocol type": 1 byte.
pub const ADDR_PROTOCOL_TYPE: u16 = 13;

/// The address of "homing offset": 4 bytes.
pub const ADDR_HOMING_OFFSET: u16 = 20;

/// The address of "moving threshold": 4 bytes.
pub const ADDR_MOVING_THRESHOLD: u16 = 24;

/// The address of "temperature limit": 1 byte.
pub const ADDR_TEMPERATURE_LIMIT: u16 = 31;

/// The address of "max voltage limit": 2 bytes.
pub const ADDR_MAX_VOLTAGE_LIMIT: u16 = 32;

/// The address of "min voltage limit": 2 bytes.
pub const ADDR_MIN_VOLTAGE_LIMIT: u16 = 34;

/// The address of "pwm limit": 2 bytes.
pub const ADDR_PWM_LIMIT: u16 = 36;

/// The address of "current limit": 2 bytes.
pub const ADDR_CURRENT_LIMIT: u16 = 38;

/// The address of "velocity limit": 4 bytes.
pub const ADDR_VELOCITY_LIMIT: u16 = 44;

/// The address of "max position limit": 4 bytes.
pub const ADDR_MAX_POSITION_LIMIT: u16 = 48;

/// The address of "min position limit": 4 bytes.
pub const ADDR_MIN_POSITION_LIMIT: u16 = 52;

/// The address of "startup configuration": 1 byte.
pub const ADDR_STARTUP_CONFIGURATION: u16 = 60;

/// The address of "shutdown": 1 byte.
pub const ADDR_SHUTDOWN: u16 = 63;

/// The address of "torque enable": 1 byte.
pub const ADDR_TORQUE_ENABLE: u16 = 64;

/// The address of "led": 1 byte.
pub const ADDR_LED: u16 = 65;

/// The address of "status return level": 1 byte.
pub const ADDR_STATUS_RETURN_LEVEL: u16 = 68;

/// The address of "registered instruction": 1 byte.
pub const ADDR_REGISTERED_INSTRUCTION: u16 = 69;

/// The address of "hardware error status": 1 byte.
pub const ADDR_HARDWARE_ERROR_STATUS: u16 = 70;

/// The address of "velocity i gain": 2 bytes.
pub const ADDR_VELOCITY_I_GAIN: u16 = 76;

/// The address of "velocity p gain": 2 bytes.
pub const ADDR_VELOCITY_P_GAIN: u16 = 78;

/// The address of "position d gain": 2 bytes.
pub const ADDR_POSITION_D_GAIN: u16 = 80;

/// The address of "position i gain": 2 bytes.
pub const ADDR_POSITION_I_GAIN: u16 = 82;

/// The address of "position p gain": 2 bytes.
pub const ADDR_POSITION_P_GAIN: u16 = 84;

/// The address of "feedforward 2nd gain": 2 bytes.
pub const ADDR_FEEDFORWARD_2ND_GAIN: u16 = 88;

/// The address of "feedforward 1st gain": 2 bytes.
pub const ADDR_FEEDFORWARD_1ST_GAIN: u16 = 90;

/// The address of "bus watching": 1 byte.
pub const ADDR_BUS_WATCHING: u16 = 98;

/// The address of "goal pwm": 2 bytes.
pub const ADDR_GOAL_PWM: u16 = 100;

/// The address of "goal current": 2 bytes.
pub const ADDR_GOAL_CURRENT: u16 = 102;

/// The address of "goal velocity": 4 bytes.
pub const ADDR_GOAL_VELOCITY: u16 = 104;

/// The address of "profile acceleration": 4 bytes.
pub const ADDR_PROFILE_ACCELERATION: u16 = 108;

/// The address of "profile velocity": 4 bytes.
pub const ADDR_PROFILE_VELOCITY: u16 = 112;

/// The address of "goal position": 4 bytes.
pub const ADDR_GOAL_POSITION: u16 = 116;

/// The address of "realtime tick": 2 bytes.
pub const ADDR_REALTIME_TICK: u16 = 120;

/// The address of "moving": 1 byte.
pub const ADDR_MOVING: u16 = 122;

/// The address of "moving status": 1 byte.
pub const ADDR_MOVING_STATUS: u16 = 123;

/// The address of "present pwm": 2 bytes.
pub const ADDR_PRESENT_PWM: u16 = 124;

/// The address of "present current": 2 bytes.
pub const ADDR_PRESENT_CURRENT: u16 = 126;

/// The address of "present velocity": 4 bytes.
pub const ADDR_PRESENT_VELOCITY: u16 = 128;

/// The address of "present position": 4 bytes.
pub const ADDR_PRESENT_POSITION: u16 = 132;

/// The address of "velocity trajectory": 4 bytes.
pub const ADDR_VELOCITY_TRAJECTORY: u16 = 136;

/// The address of "position trajectory": 4 bytes.
pub const ADDR_POSITION_TRAJECTORY: u16 = 140;

/// The address of "present input voltage": 2 bytes.
pub const ADDR_PRESENT_INPUT_VOLTAGE: u16 = 144;

/// The address of "present temperature": 1 byte.
pub const ADDR_PRESENT_TEMPERATURE: u16 = 146;

/// The address of "backup ready": 1 byte.
pub const ADDR_BACKUP_READY: u16 = 147;

} // verus!
