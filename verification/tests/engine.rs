use std::time::Duration;

use dynamixel2::alert::AlertFlags;
use dynamixel2::control_table::xm430_w350;
use dynamixel2::instructions::ping::Scanned;
use dynamixel2::instructions::{instruction_id, packet_id};
use dynamixel2::{
    Bus, CallerError, ChannelError, Event, InvalidParameterCount, Phase, Ping, ReadError,
    Response, StatusPacket, Step, TransferError, WriteError,
};

/// A channel with a clock: what is written is kept, and what is to arrive
/// arrives at its time.  A read takes one tick.
struct Wire {
    now: u32,
    timeout: u32,
    deadline: u32,
    arrivals: Vec<(u32, Vec<u8>)>,
    written: Vec<Vec<u8>>,
    reads: u32,
    listens: u32,
    write_fails: Option<ChannelError>,
    read_fails: Option<ChannelError>,
}

impl Wire {
    fn new(timeout: u32) -> Wire {
        Wire {
            now: 0,
            timeout,
            deadline: 0,
            arrivals: Vec::new(),
            written: Vec::new(),
            reads: 0,
            listens: 0,
            write_fails: None,
            read_fails: None,
        }
    }

    fn with(timeout: u32, arrivals: Vec<(u32, Vec<u8>)>) -> Wire {
        let mut wire = Wire::new(timeout);
        wire.arrivals = arrivals;
        wire
    }

    fn read(&mut self) -> Vec<u8> {
        self.reads += 1;
        self.now += 1;
        let mut chunk = Vec::new();
        while !self.arrivals.is_empty() && self.arrivals[0].0 <= self.now {
            chunk.extend(self.arrivals.remove(0).1);
        }
        chunk
    }
}

/// Runs one operation of the bus on the wire, from start to end.
fn drive<T>(
    bus: &mut Bus,
    wire: &mut Wire,
    mut operation: impl for<'a> FnMut(&mut Bus, Event<'a>) -> Step<T>,
) -> Result<T, TransferError> {
    let mut step = operation(bus, Event::Start);
    loop {
        step = match step {
            Step::Send => {
                wire.written.push(bus.outgoing().to_vec());
                match wire.write_fails {
                    Some(error) => operation(bus, Event::Failed(error)),
                    None => operation(bus, Event::Sent),
                }
            },
            Step::Listen | Step::KeepListening => {
                if let Step::Listen = step {
                    wire.listens += 1;
                    wire.deadline = wire.now + wire.timeout;
                }
                if wire.now >= wire.deadline {
                    operation(bus, Event::TimedOut)
                } else if let Some(error) = wire.read_fails {
                    operation(bus, Event::Failed(error))
                } else {
                    let chunk = wire.read();
                    operation(bus, Event::Received(&chunk))
                }
            },
            Step::Done(outcome) => return outcome,
        }
    }
}

fn status(packet_id: u8, alert: u8, parameters: &[u8]) -> Vec<u8> {
    StatusPacket { packet_id, alert, parameters: parameters.to_vec() }.encode().unwrap()
}

fn response<T>(motor_id: u8, bits: u8, data: T) -> Response<T> {
    Response { motor_id, alert: AlertFlags { bits }, data }
}

fn wrong_count(actual: usize, expected: usize) -> TransferError {
    TransferError::Read(ReadError::InvalidParameterCount(InvalidParameterCount {
        actual,
        expected,
    }))
}

const TIMEOUT: TransferError = TransferError::Read(ReadError::Timeout);

#[test]
fn new_bus_is_idle() {
    let bus = Bus::new(Duration::from_millis(50));
    assert_eq!(bus.read_timeout(), Duration::from_millis(50));
    assert_eq!(bus.phase(), Phase::Idle);
    assert_eq!(bus.outgoing(), &[] as &[u8]);
    assert_eq!(Bus::DEFAULT_BUFFER_SIZE, 128);
}

#[test]
fn read_sends_address_then_count() {
    let mut bus = Bus::new(Duration::from_millis(50));
    assert_eq!(bus.read(5, 132, 4, Event::Start), Step::Send);
    assert_eq!(bus.phase(), Phase::Sending);
    let frame = bus.outgoing().to_vec();
    assert_eq!(
        frame,
        vec![0xFF, 0xFF, 0xFD, 0x00, 0x05, 0x07, 0x00, 0x02, 0x84, 0x00, 0x04, 0x00, 0x05, 0x55]
    );
    assert_eq!(&frame[8..12], &[0x84, 0x00, 0x04, 0x00]);
    assert_eq!(bus.read(5, 132, 4, Event::Sent), Step::Listen);
    assert_eq!(bus.phase(), Phase::Listening);
}

#[test]
fn read_u32_example() {
    let mut bus = Bus::new(Duration::from_millis(50));
    let mut wire = Wire::with(10, vec![(1, status(5, 0x00, &[0x10, 0x00, 0x00, 0x00]))]);
    let answer = drive(&mut bus, &mut wire, |bus, event| {
        bus.read_u32(5, xm430_w350::ADDR_PRESENT_POSITION, event)
    })
    .unwrap();
    assert_eq!(answer, response(5, 0, 16u32));
    assert!(answer.alert.is_clear());
    assert_eq!(wire.written.len(), 1);
    assert_eq!(&wire.written[0][8..12], &[0x84, 0x00, 0x04, 0x00]);
    assert_eq!(bus.phase(), Phase::Idle);
}

#[test]
fn read_returns_exactly_count_bytes() {
    let mut bus = Bus::new(Duration::from_millis(50));
    let mut wire = Wire::with(10, vec![(1, status(7, 0x04, &[1, 2, 3]))]);
    let answer = drive(&mut bus, &mut wire, |bus, event| bus.read(7, 10, 3, event)).unwrap();
    assert_eq!(answer, StatusPacket { packet_id: 7, alert: 0x04, parameters: vec![1, 2, 3] });
    assert_eq!(answer.parameters.len(), 3);
}

#[test]
fn read_refuses_other_parameter_counts() {
    for sent in [0usize, 1, 3, 4, 9] {
        let mut bus = Bus::new(Duration::from_millis(50));
        let mut wire = Wire::with(10, vec![(1, status(7, 0, &vec![0xAB; sent]))]);
        let outcome = drive(&mut bus, &mut wire, |bus, event| bus.read(7, 10, 2, event));
        assert_eq!(outcome, Err(wrong_count(sent, 2)));
        assert_eq!(bus.phase(), Phase::Idle);
    }
}

#[test]
fn read_u8_u16_u32_decode_little_endian() {
    let mut bus = Bus::new(Duration::from_millis(50));
    let mut wire = Wire::with(10, vec![(1, status(1, 0, &[0x7F]))]);
    assert_eq!(
        drive(&mut bus, &mut wire, |bus, event| bus.read_u8(1, 64, event)),
        Ok(response(1, 0, 0x7Fu8))
    );
    assert_eq!(&wire.written[0][8..12], &[64, 0, 1, 0]);

    let mut wire = Wire::with(10, vec![(1, status(1, 0x20, &[0x34, 0x12]))]);
    assert_eq!(
        drive(&mut bus, &mut wire, |bus, event| bus.read_u16(1, 0x0190, event)),
        Ok(response(1, 0x20, 0x1234u16))
    );
    assert_eq!(&wire.written[0][8..12], &[0x90, 0x01, 2, 0]);

    let mut wire = Wire::with(10, vec![(1, status(1, 0, &[0x78, 0x56, 0x34, 0x12]))]);
    assert_eq!(
        drive(&mut bus, &mut wire, |bus, event| bus.read_u32(1, 132, event)),
        Ok(response(1, 0, 0x1234_5678u32))
    );
}

#[test]
fn read_u8_u16_u32_refuse_other_widths() {
    let mut bus = Bus::new(Duration::from_millis(50));
    let mut wire = Wire::with(10, vec![(1, status(1, 0, &[1, 2]))]);
    assert_eq!(
        drive(&mut bus, &mut wire, |bus, event| bus.read_u8(1, 64, event)),
        Err(wrong_count(2, 1))
    );
    let mut wire = Wire::with(10, vec![(1, status(1, 0, &[1]))]);
    assert_eq!(
        drive(&mut bus, &mut wire, |bus, event| bus.read_u16(1, 64, event)),
        Err(wrong_count(1, 2))
    );
    let mut wire = Wire::with(10, vec![(1, status(1, 0, &[1, 2]))]);
    assert_eq!(
        drive(&mut bus, &mut wire, |bus, event| bus.read_u32(1, 64, event)),
        Err(wrong_count(2, 4))
    );
}

#[test]
fn read_needs_a_single_motor() {
    for motor_id in [packet_id::BROADCAST, 0xFF] {
        let mut bus = Bus::new(Duration::from_millis(50));
        let mut wire = Wire::new(10);
        let refused =
            TransferError::Caller(CallerError::InvalidPacketId { packet_id: motor_id });
        assert_eq!(
            drive(&mut bus, &mut wire, |bus, event| bus.read(motor_id, 0, 1, event)),
            Err(refused)
        );
        assert_eq!(
            drive(&mut bus, &mut wire, |bus, event| bus.read_u8(motor_id, 0, event)),
            Err(refused)
        );
        assert_eq!(
            drive(&mut bus, &mut wire, |bus, event| bus.read_u16(motor_id, 0, event)),
            Err(refused)
        );
        assert_eq!(
            drive(&mut bus, &mut wire, |bus, event| bus.read_u32(motor_id, 0, event)),
            Err(refused)
        );
        assert_eq!(
            drive(&mut bus, &mut wire, |bus, event| bus.ping(motor_id, event)),
            Err(refused)
        );
        assert!(wire.written.is_empty());
        assert_eq!(wire.reads, 0);
    }
    let mut bus = Bus::new(Duration::from_millis(50));
    assert_eq!(bus.read(253, 0, 1, Event::Start), Step::Send);
}

#[test]
fn silent_channel_times_out() {
    let mut bus = Bus::new(Duration::from_millis(50));
    let mut wire = Wire::new(5);
    assert_eq!(drive(&mut bus, &mut wire, |bus, event| bus.read_u8(1, 64, event)), Err(TIMEOUT));
    assert_eq!(wire.reads, 5);
    assert_eq!(wire.now, 5);
    assert_eq!(wire.listens, 1);
    assert_eq!(wire.written.len(), 1);
    assert_eq!(bus.phase(), Phase::Idle);

    let mut wire = Wire::new(3);
    assert_eq!(drive(&mut bus, &mut wire, |bus, event| bus.ping(1, event)), Err(TIMEOUT));
    assert_eq!(wire.reads, 3);
    let mut wire = Wire::new(3);
    assert_eq!(
        drive(&mut bus, &mut wire, |bus, event| bus.write_u8(1, 64, 1, event)),
        Err(TIMEOUT)
    );
    assert_eq!(wire.reads, 3);
    let mut wire = Wire::new(3);
    assert_eq!(drive(&mut bus, &mut wire, |bus, event| bus.reboot(1, event)), Err(TIMEOUT));
    assert_eq!(wire.reads, 3);
}

#[test]
fn silence_alone_is_no_timeout() {
    let mut bus = Bus::new(Duration::from_millis(50));
    assert_eq!(bus.read_u8(1, 64, Event::Start), Step::Send);
    assert_eq!(bus.read_u8(1, 64, Event::Sent), Step::Listen);
    for _ in 0..100 {
        assert_eq!(bus.read_u8(1, 64, Event::Received(&[])), Step::KeepListening);
    }
    assert_eq!(bus.read_u8(1, 64, Event::TimedOut), Step::Done(Err(TIMEOUT)));
}

#[test]
fn late_answer_times_out() {
    let mut bus = Bus::new(Duration::from_millis(50));
    let mut wire = Wire::with(5, vec![(6, status(1, 0, &[9]))]);
    assert_eq!(drive(&mut bus, &mut wire, |bus, event| bus.read_u8(1, 64, event)), Err(TIMEOUT));
    let mut wire = Wire::with(5, vec![(5, status(1, 0, &[9]))]);
    assert_eq!(
        drive(&mut bus, &mut wire, |bus, event| bus.read_u8(1, 64, event)),
        Ok(response(1, 0, 9u8))
    );
}

#[test]
fn half_a_frame_is_dropped_at_the_timeout() {
    let frame = status(1, 0, &[9]);
    let mut bus = Bus::new(Duration::from_millis(50));
    let mut wire = Wire::with(3, vec![(1, frame[..6].to_vec())]);
    assert_eq!(drive(&mut bus, &mut wire, |bus, event| bus.read_u8(1, 64, event)), Err(TIMEOUT));
    // The rest of the old frame, then a whole new one.
    let mut arrival = frame[6..].to_vec();
    arrival.extend(status(1, 0, &[7]));
    let mut wire = Wire::with(3, vec![(1, arrival)]);
    assert_eq!(
        drive(&mut bus, &mut wire, |bus, event| bus.read_u8(1, 64, event)),
        Ok(response(1, 0, 7u8))
    );
}

#[test]
fn foreign_frame_is_passed_over() {
    let mut bus = Bus::new(Duration::from_millis(50));
    let mut wire = Wire::with(
        5,
        vec![(2, status(9, 0, &[0xEE])), (4, status(1, 0, &[0x11]))],
    );
    assert_eq!(
        drive(&mut bus, &mut wire, |bus, event| bus.read_u8(1, 64, event)),
        Ok(response(1, 0, 0x11u8))
    );
    assert_eq!(wire.listens, 1);
    assert_eq!(wire.reads, 4);
}

#[test]
fn foreign_frame_does_not_restart_the_clock() {
    // The answer comes one tick after the timeout.  Had the foreign frame
    // at tick 4 started the clock again, it would be in time.
    let mut bus = Bus::new(Duration::from_millis(50));
    let mut wire = Wire::with(
        5,
        vec![(4, status(9, 0, &[0xEE])), (6, status(1, 0, &[0x11]))],
    );
    assert_eq!(drive(&mut bus, &mut wire, |bus, event| bus.read_u8(1, 64, event)), Err(TIMEOUT));
    assert_eq!(wire.listens, 1);
    assert_eq!(wire.reads, 5);
}

#[test]
fn foreign_frame_in_the_same_read() {
    let mut bus = Bus::new(Duration::from_millis(50));
    let mut arrival = status(9, 0, &[0xEE]);
    arrival.extend(status(8, 0, &[]));
    arrival.extend(status(1, 0x01, &[0x11]));
    let mut wire = Wire::with(5, vec![(1, arrival)]);
    assert_eq!(
        drive(&mut bus, &mut wire, |bus, event| bus.read_u8(1, 64, event)),
        Ok(response(1, 0x01, 0x11u8))
    );
}

#[test]
fn frame_in_pieces() {
    let frame = status(1, 0, &[0x34, 0x12]);
    for cut in 1..frame.len() {
        let mut bus = Bus::new(Duration::from_millis(50));
        let mut wire =
            Wire::with(5, vec![(1, frame[..cut].to_vec()), (3, frame[cut..].to_vec())]);
        assert_eq!(
            drive(&mut bus, &mut wire, |bus, event| bus.read_u16(1, 64, event)),
            Ok(response(1, 0, 0x1234u16))
        );
        assert_eq!(wire.reads, 3);
    }
}

#[test]
fn frame_byte_by_byte() {
    let frame = status(1, 0, &[0xFF, 0xFF, 0xFD, 0x00]);
    let arrivals = frame.iter().enumerate().map(|(i, byte)| (i as u32 + 1, vec![*byte])).collect();
    let mut bus = Bus::new(Duration::from_millis(50));
    let mut wire = Wire::with(100, arrivals);
    assert_eq!(
        drive(&mut bus, &mut wire, |bus, event| bus.read_u32(1, 64, event)),
        Ok(response(1, 0, 0x00FD_FFFFu32))
    );
}

#[test]
fn noise_before_the_frame_is_dropped() {
    let mut arrival = vec![0x00, 0xFF, 0xFF, 0x12, 0xFF, 0xFF, 0xFD, 0x01, 0xFF];
    arrival.extend(status(1, 0, &[0x42]));
    let mut bus = Bus::new(Duration::from_millis(50));
    let mut wire = Wire::with(5, vec![(1, arrival)]);
    assert_eq!(
        drive(&mut bus, &mut wire, |bus, event| bus.read_u8(1, 64, event)),
        Ok(response(1, 0, 0x42u8))
    );
}

#[test]
fn damaged_answer_ends_the_transfer() {
    let mut frame = status(1, 0, &[0x42]);
    let last = frame.len() - 1;
    let stored = u16::from_le_bytes([frame[last - 1], frame[last]]);
    frame[last] ^= 0x01;
    let mut bus = Bus::new(Duration::from_millis(50));
    let mut wire = Wire::with(5, vec![(1, frame)]);
    assert_eq!(
        drive(&mut bus, &mut wire, |bus, event| bus.read_u8(1, 64, event)),
        Err(TransferError::Read(ReadError::InvalidChecksum {
            message: stored ^ 0x0100,
            computed: stored
        }))
    );
    assert_eq!(wire.reads, 1);
}

#[test]
fn echo_of_an_instruction_is_no_status() {
    let mut bus = Bus::new(Duration::from_millis(50));
    let mut wire = Wire::with(5, vec![]);
    assert_eq!(bus.ping(1, Event::Start), Step::Send);
    let echo = bus.outgoing().to_vec();
    wire.arrivals.push((1, echo));
    assert_eq!(
        drive(&mut bus, &mut wire, |bus, event| bus.ping(1, event)),
        Err(TransferError::Read(ReadError::InvalidInstruction { actual: 0x01, expected: 0x55 }))
    );
}

#[test]
fn answer_longer_than_the_read_buffer() {
    let mut bus = Bus::with_buffer_sizes(Duration::from_millis(50), 16, 128);
    let mut wire = Wire::with(5, vec![(1, status(1, 0, &[0; 6]))]);
    assert_eq!(
        drive(&mut bus, &mut wire, |bus, event| bus.read(1, 0, 6, event)),
        Err(TransferError::Read(ReadError::BufferTooSmall { required: 17, capacity: 16 }))
    );
    let mut wire = Wire::with(5, vec![(1, status(1, 0, &[0; 5]))]);
    assert!(drive(&mut bus, &mut wire, |bus, event| bus.read(1, 0, 5, event)).is_ok());
}

#[test]
fn answer_with_a_length_without_room() {
    let mut bus = Bus::new(Duration::from_millis(50));
    let mut wire = Wire::with(5, vec![(1, vec![0xFF, 0xFF, 0xFD, 0x00, 0x01, 0x02, 0x00])]);
    assert_eq!(
        drive(&mut bus, &mut wire, |bus, event| bus.read(1, 0, 6, event)),
        Err(TransferError::Read(ReadError::InvalidLength { declared: 2 }))
    );
}

#[test]
fn instruction_longer_than_the_write_buffer() {
    let mut bus = Bus::with_buffer_sizes(Duration::from_millis(50), 128, 12);
    let mut wire = Wire::new(5);
    assert_eq!(
        drive(&mut bus, &mut wire, |bus, event| bus.write_u16(1, 64, 7, event)),
        Err(TransferError::Write(WriteError::BufferTooSmall { required: 14, capacity: 12 }))
    );
    assert!(wire.written.is_empty());
    assert_eq!(bus.outgoing(), &[] as &[u8]);
    assert_eq!(bus.phase(), Phase::Idle);
}

#[test]
fn channel_failures_end_the_transfer() {
    let mut bus = Bus::new(Duration::from_millis(50));
    let mut wire = Wire::new(5);
    wire.write_fails = Some(ChannelError::Disconnected);
    assert_eq!(
        drive(&mut bus, &mut wire, |bus, event| bus.read_u8(1, 64, event)),
        Err(TransferError::Write(WriteError::Channel(ChannelError::Disconnected)))
    );
    assert_eq!(wire.reads, 0);

    let mut wire = Wire::new(5);
    wire.read_fails = Some(ChannelError::Other { code: 5 });
    assert_eq!(
        drive(&mut bus, &mut wire, |bus, event| bus.read_u8(1, 64, event)),
        Err(TransferError::Read(ReadError::Channel(ChannelError::Other { code: 5 })))
    );
    assert_eq!(bus.phase(), Phase::Idle);

    let mut wire = Wire::new(5);
    wire.write_fails = Some(ChannelError::PermissionDenied);
    assert_eq!(
        drive(&mut bus, &mut wire, |bus, event| bus.sync_read(&[1, 2], 64, 1, event)),
        Err(TransferError::Write(WriteError::Channel(ChannelError::PermissionDenied)))
    );
    let mut wire = Wire::new(5);
    wire.read_fails = Some(ChannelError::Disconnected);
    assert_eq!(
        drive(&mut bus, &mut wire, |bus, event| bus.sync_read(&[1, 2], 64, 1, event)),
        Err(TransferError::Read(ReadError::Channel(ChannelError::Disconnected)))
    );
}

#[test]
fn events_out_of_turn_are_refused() {
    let out_of_turn = TransferError::Caller(CallerError::UnexpectedEvent);
    let mut bus = Bus::new(Duration::from_millis(50));
    assert_eq!(bus.read_u8(1, 64, Event::Sent), Step::Done(Err(out_of_turn)));
    assert_eq!(bus.read_u8(1, 64, Event::Received(&[1])), Step::Done(Err(out_of_turn)));
    assert_eq!(bus.read_u8(1, 64, Event::TimedOut), Step::Done(Err(out_of_turn)));
    assert_eq!(
        bus.read_u8(1, 64, Event::Failed(ChannelError::Disconnected)),
        Step::Done(Err(out_of_turn))
    );
    assert_eq!(bus.read_u8(1, 64, Event::Start), Step::Send);
    assert_eq!(bus.read_u8(1, 64, Event::TimedOut), Step::Done(Err(out_of_turn)));
    assert_eq!(bus.phase(), Phase::Idle);
    assert_eq!(bus.sync_read(&[1], 64, 1, Event::Sent), Step::Done(Err(out_of_turn)));
    assert_eq!(bus.sync_read(&[1], 64, 1, Event::TimedOut), Step::Done(Err(out_of_turn)));
    // A synchronized read for other devices than it was started for.
    assert_eq!(bus.sync_read(&[1], 64, 1, Event::Start), Step::Send);
    assert_eq!(bus.sync_read(&[1, 2], 64, 1, Event::Sent), Step::Done(Err(out_of_turn)));
}

#[test]
fn transfer_single_unicast() {
    let mut bus = Bus::new(Duration::from_millis(50));
    let mut wire = Wire::with(5, vec![(1, status(3, 0x08, &[1, 2, 3]))]);
    assert_eq!(
        drive(&mut bus, &mut wire, |bus, event| {
            bus.transfer_single(3, instruction_id::READ, &[0, 0, 3, 0], event)
        }),
        Ok(Some(StatusPacket { packet_id: 3, alert: 0x08, parameters: vec![1, 2, 3] }))
    );
    assert_eq!(wire.written[0][4], 3);
    assert_eq!(wire.written[0][7], instruction_id::READ);
}

#[test]
fn transfer_single_broadcast_awaits_nothing() {
    let mut bus = Bus::new(Duration::from_millis(50));
    let mut wire = Wire::with(5, vec![(1, status(3, 0, &[]))]);
    assert_eq!(
        drive(&mut bus, &mut wire, |bus, event| {
            bus.transfer_single(packet_id::BROADCAST, instruction_id::ACTION, &[], event)
        }),
        Ok(None)
    );
    assert_eq!(wire.reads, 0);
    assert_eq!(wire.listens, 0);
}

#[test]
fn transfer_single_refuses_the_identifier_of_no_device() {
    let mut bus = Bus::new(Duration::from_millis(50));
    let mut wire = Wire::new(5);
    assert_eq!(
        drive(&mut bus, &mut wire, |bus, event| {
            bus.transfer_single(0xFF, instruction_id::PING, &[], event)
        }),
        Err(TransferError::Caller(CallerError::InvalidPacketId { packet_id: 0xFF }))
    );
    assert!(wire.written.is_empty());
}

#[test]
fn start_drops_what_is_left_of_the_last_transfer() {
    let mut bus = Bus::new(Duration::from_millis(50));
    let mut arrival = status(1, 0, &[1]);
    arrival.extend(status(1, 0, &[2]));
    let mut wire = Wire::with(5, vec![(1, arrival)]);
    assert_eq!(
        drive(&mut bus, &mut wire, |bus, event| bus.read_u8(1, 64, event)),
        Ok(response(1, 0, 1u8))
    );
    // The second frame is still in the read buffer; the next transfer
    // does not take it for its answer.
    let mut wire = Wire::with(5, vec![(1, status(1, 0, &[3]))]);
    assert_eq!(
        drive(&mut bus, &mut wire, |bus, event| bus.read_u8(1, 64, event)),
        Ok(response(1, 0, 3u8))
    );
}

#[test]
fn ping_decodes_model_and_firmware() {
    let mut bus = Bus::new(Duration::from_millis(50));
    let mut wire = Wire::with(5, vec![(1, status(1, 0, &[0x06, 0x04, 0x26]))]);
    assert_eq!(
        drive(&mut bus, &mut wire, |bus, event| bus.ping(1, event)),
        Ok(response(1, 0, Ping { model: 0x0406, firmware: 0x26 }))
    );
    assert_eq!(
        wire.written,
        vec![vec![0xFF, 0xFF, 0xFD, 0x00, 0x01, 0x03, 0x00, 0x01, 0x19, 0x4E]]
    );
    let mut wire = Wire::with(5, vec![(1, status(1, 0, &[0x06, 0x04]))]);
    assert_eq!(
        drive(&mut bus, &mut wire, |bus, event| bus.ping(1, event)),
        Err(wrong_count(2, 3))
    );
}

#[test]
fn reboot_is_acknowledged() {
    let mut bus = Bus::new(Duration::from_millis(50));
    let mut wire = Wire::with(5, vec![(1, status(4, 0x01, &[]))]);
    assert_eq!(
        drive(&mut bus, &mut wire, |bus, event| bus.reboot(4, event)),
        Ok(Some(response(4, 0x01, ())))
    );
    assert_eq!(wire.written[0][7], instruction_id::REBOOT);
    assert_eq!(wire.written[0].len(), 10);
    let mut wire = Wire::with(5, vec![(1, status(4, 0, &[1]))]);
    assert_eq!(
        drive(&mut bus, &mut wire, |bus, event| bus.reboot(4, event)),
        Err(wrong_count(1, 0))
    );
}

#[test]
fn broadcast_reboot_returns_at_once() {
    let mut bus = Bus::new(Duration::from_millis(50));
    let mut wire = Wire::with(5, vec![(0, status(4, 0, &[]))]);
    assert_eq!(
        drive(&mut bus, &mut wire, |bus, event| bus.reboot(packet_id::BROADCAST, event)),
        Ok(None)
    );
    assert_eq!(wire.reads, 0);
    assert_eq!(wire.listens, 0);
    assert_eq!(wire.now, 0);
    assert_eq!(wire.written.len(), 1);
    assert_eq!(wire.written[0][4], 0xFE);
    assert_eq!(wire.arrivals.len(), 1);
    assert_eq!(bus.phase(), Phase::Idle);
}

#[test]
fn write_sends_address_then_value() {
    let mut bus = Bus::new(Duration::from_millis(50));
    let mut wire = Wire::with(5, vec![(1, status(1, 0, &[]))]);
    assert_eq!(
        drive(&mut bus, &mut wire, |bus, event| bus.write_u8(1, 64, 1, event)),
        Ok(Some(response(1, 0, ())))
    );
    assert_eq!(&wire.written[0][4..10], &[1, 6, 0, instruction_id::WRITE, 64, 0]);
    assert_eq!(wire.written[0][10], 1);

    let mut wire = Wire::with(5, vec![(1, status(1, 0, &[]))]);
    assert!(drive(&mut bus, &mut wire, |bus, event| bus.write_u16(1, 0x0102, 0xBEEF, event))
        .is_ok());
    assert_eq!(&wire.written[0][8..12], &[0x02, 0x01, 0xEF, 0xBE]);

    let mut wire = Wire::with(5, vec![(1, status(1, 0x20, &[]))]);
    assert_eq!(
        drive(&mut bus, &mut wire, |bus, event| bus.write_u32(1, 116, 0x1234_5678, event)),
        Ok(Some(response(1, 0x20, ())))
    );
    assert_eq!(&wire.written[0][8..14], &[116, 0, 0x78, 0x56, 0x34, 0x12]);

    let mut wire = Wire::with(5, vec![(1, status(1, 0, &[]))]);
    assert!(drive(&mut bus, &mut wire, |bus, event| bus.write(1, 10, &[9, 8, 7], event)).is_ok());
    assert_eq!(&wire.written[0][8..13], &[10, 0, 9, 8, 7]);
}

#[test]
fn write_acknowledgement_carries_no_parameters() {
    let mut bus = Bus::new(Duration::from_millis(50));
    let mut wire = Wire::with(5, vec![(1, status(1, 0, &[0, 0]))]);
    assert_eq!(
        drive(&mut bus, &mut wire, |bus, event| bus.write_u8(1, 64, 1, event)),
        Err(wrong_count(2, 0))
    );
}

#[test]
fn broadcast_write_returns_at_once() {
    let mut bus = Bus::new(Duration::from_millis(50));
    let mut wire = Wire::with(5, vec![(0, status(1, 0, &[]))]);
    assert_eq!(
        drive(&mut bus, &mut wire, |bus, event| {
            bus.write_u8(packet_id::BROADCAST, 64, 1, event)
        }),
        Ok(None)
    );
    assert_eq!((wire.reads, wire.listens, wire.now), (0, 0, 0));
    assert_eq!(
        drive(&mut bus, &mut wire, |bus, event| {
            bus.write_u16(packet_id::BROADCAST, 64, 1, event)
        }),
        Ok(None)
    );
    assert_eq!(
        drive(&mut bus, &mut wire, |bus, event| {
            bus.write_u32(packet_id::BROADCAST, 64, 1, event)
        }),
        Ok(None)
    );
    assert_eq!(
        drive(&mut bus, &mut wire, |bus, event| {
            bus.write(packet_id::BROADCAST, 64, &[1, 2, 3], event)
        }),
        Ok(None)
    );
    assert_eq!((wire.reads, wire.listens, wire.now), (0, 0, 0));
    assert_eq!(wire.written.len(), 4);
    assert_eq!(wire.arrivals.len(), 1);
}

#[test]
fn sync_write_sends_one_frame() {
    let mut bus = Bus::new(Duration::from_millis(50));
    let mut wire = Wire::with(5, vec![(0, status(1, 0, &[]))]);
    let values = vec![vec![0x10, 0x00], vec![0x20, 0x00], vec![0x30, 0x00]];
    assert_eq!(
        drive(&mut bus, &mut wire, |bus, event| bus.sync_write(&[3, 1, 2], 116, &values, event)),
        Ok(())
    );
    assert_eq!((wire.reads, wire.listens), (0, 0));
    assert_eq!(wire.written.len(), 1);
    let frame = &wire.written[0];
    assert_eq!(frame[4], packet_id::BROADCAST);
    assert_eq!(frame[7], instruction_id::SYNC_WRITE);
    assert_eq!(
        &frame[8..frame.len() - 2],
        &[116, 0, 2, 0, 3, 0x10, 0x00, 1, 0x20, 0x00, 2, 0x30, 0x00]
    );
}

#[test]
fn sync_write_needs_a_value_for_each_motor() {
    let mut bus = Bus::new(Duration::from_millis(50));
    let mut wire = Wire::new(5);
    let values = vec![vec![1], vec![2]];
    assert_eq!(
        drive(&mut bus, &mut wire, |bus, event| bus.sync_write(&[1, 2, 3], 64, &values, event)),
        Err(TransferError::Caller(CallerError::LengthMismatch { identifiers: 3, values: 2 }))
    );
    assert_eq!(
        drive(&mut bus, &mut wire, |bus, event| bus.sync_write(&[1], 64, &values, event)),
        Err(TransferError::Caller(CallerError::LengthMismatch { identifiers: 1, values: 2 }))
    );
    assert!(wire.written.is_empty());
    assert_eq!(bus.outgoing(), &[] as &[u8]);
}

#[test]
fn sync_write_needs_values_of_one_width() {
    let mut bus = Bus::new(Duration::from_millis(50));
    let mut wire = Wire::new(5);
    let values = vec![vec![1, 1], vec![2, 2], vec![3]];
    assert_eq!(
        drive(&mut bus, &mut wire, |bus, event| bus.sync_write(&[1, 2, 3], 64, &values, event)),
        Err(TransferError::Caller(CallerError::UnevenValues { index: 2, actual: 1, expected: 2 }))
    );
    assert!(wire.written.is_empty());
}

#[test]
fn sync_write_needs_single_motors() {
    let mut bus = Bus::new(Duration::from_millis(50));
    let mut wire = Wire::new(5);
    let values = vec![vec![1], vec![2]];
    assert_eq!(
        drive(&mut bus, &mut wire, |bus, event| bus.sync_write(&[1, 0xFE], 64, &values, event)),
        Err(TransferError::Caller(CallerError::InvalidPacketId { packet_id: 0xFE }))
    );
    assert!(wire.written.is_empty());
}

#[test]
fn sync_write_to_nobody() {
    let mut bus = Bus::new(Duration::from_millis(50));
    let mut wire = Wire::new(5);
    assert_eq!(
        drive(&mut bus, &mut wire, |bus, event| bus.sync_write(&[], 64, &[], event)),
        Ok(())
    );
    assert_eq!(&wire.written[0][8..12], &[64, 0, 0, 0]);
}

#[test]
fn sync_read_sends_address_count_and_motors() {
    let mut bus = Bus::new(Duration::from_millis(50));
    assert_eq!(bus.sync_read(&[3, 1, 2], 132, 4, Event::Start), Step::Send);
    let frame = bus.outgoing();
    assert_eq!(frame[4], packet_id::BROADCAST);
    assert_eq!(frame[7], instruction_id::SYNC_READ);
    assert_eq!(&frame[8..15], &[132, 0, 4, 0, 3, 1, 2]);
    assert_eq!(frame.len(), 17);
}

fn sync_read_321(arrivals: Vec<(u32, Vec<u8>)>) -> (Vec<Result<Response<Vec<u8>>, ReadError>>, Wire) {
    let mut bus = Bus::new(Duration::from_millis(50));
    let mut wire = Wire::with(5, arrivals);
    let answers =
        drive(&mut bus, &mut wire, |bus, event| bus.sync_read(&[3, 1, 2], 64, 1, event)).unwrap();
    assert_eq!(bus.phase(), Phase::Idle);
    (answers, wire)
}

#[test]
fn sync_read_answers_in_the_order_asked() {
    let in_order = vec![
        Ok(response(3, 0, vec![33])),
        Ok(response(1, 0, vec![11])),
        Ok(response(2, 0, vec![22])),
    ];
    let frames = [status(1, 0, &[11]), status(2, 0, &[22]), status(3, 0, &[33])];
    let orders = [[0, 1, 2], [0, 2, 1], [1, 0, 2], [1, 2, 0], [2, 0, 1], [2, 1, 0]];
    for order in orders {
        // One after the other.
        let arrivals =
            order.iter().enumerate().map(|(i, k)| (i as u32 + 1, frames[*k].clone())).collect();
        let (answers, wire) = sync_read_321(arrivals);
        assert_eq!(answers, in_order);
        assert_eq!(wire.written.len(), 1);
        // All in one read.
        let all: Vec<u8> = order.iter().flat_map(|k| frames[*k].clone()).collect();
        let (answers, wire) = sync_read_321(vec![(1, all)]);
        assert_eq!(answers, in_order);
        assert_eq!(wire.reads, 1);
    }
}

#[test]
fn sync_read_missing_motor_costs_only_its_own_answer() {
    let expected = vec![
        Ok(response(3, 0, vec![33])),
        Err(ReadError::Timeout),
        Ok(response(2, 0x04, vec![22])),
    ];
    let (answers, _) = sync_read_321(vec![(1, status(3, 0, &[33])), (2, status(2, 0x04, &[22]))]);
    assert_eq!(answers, expected);
    let (answers, _) = sync_read_321(vec![(1, status(2, 0x04, &[22])), (2, status(3, 0, &[33]))]);
    assert_eq!(answers, expected);
    // The answer of 2 comes while 1 is awaited.
    let (answers, wire) =
        sync_read_321(vec![(1, status(3, 0, &[33])), (4, status(2, 0x04, &[22]))]);
    assert_eq!(answers, expected);
    // One wait for 3, one for 1 that runs out; 2 is known by then.
    assert_eq!(wire.listens, 2);
    assert_eq!(wire.reads, 6);
}

#[test]
fn sync_read_each_motor_has_its_own_wait() {
    // 3 answers at once, 1 never, 2 after the wait for 1 has run out.
    let (answers, wire) =
        sync_read_321(vec![(1, status(3, 0, &[33])), (8, status(2, 0, &[22]))]);
    assert_eq!(
        answers,
        vec![Ok(response(3, 0, vec![33])), Err(ReadError::Timeout), Ok(response(2, 0, vec![22]))]
    );
    assert_eq!(wire.listens, 3);
    assert_eq!(wire.reads, 8);
}

#[test]
fn sync_read_nobody_answers() {
    let (answers, wire) = sync_read_321(vec![]);
    assert_eq!(answers, vec![Err(ReadError::Timeout); 3]);
    assert_eq!(wire.listens, 3);
    assert_eq!(wire.reads, 15);
}

#[test]
fn sync_read_damaged_answer_counts_for_the_motor_awaited() {
    let mut damaged = status(3, 0, &[33]);
    let last = damaged.len() - 1;
    damaged[last - 2] = 34;
    let (answers, _) = sync_read_321(vec![
        (1, damaged),
        (2, status(1, 0, &[11])),
        (3, status(2, 0, &[22])),
    ]);
    assert!(matches!(answers[0], Err(ReadError::InvalidChecksum { .. })));
    assert_eq!(answers[1], Ok(response(1, 0, vec![11])));
    assert_eq!(answers[2], Ok(response(2, 0, vec![22])));
}

#[test]
fn sync_read_checks_each_parameter_count() {
    let (answers, _) = sync_read_321(vec![
        (1, status(3, 0, &[33, 0])),
        (2, status(1, 0, &[11])),
        (3, status(2, 0, &[])),
    ]);
    assert_eq!(
        answers,
        vec![
            Err(ReadError::InvalidParameterCount(InvalidParameterCount {
                actual: 2,
                expected: 1
            })),
            Ok(response(1, 0, vec![11])),
            Err(ReadError::InvalidParameterCount(InvalidParameterCount {
                actual: 0,
                expected: 1
            })),
        ]
    );
}

#[test]
fn sync_read_passes_over_strangers_and_repeats() {
    let (answers, _) = sync_read_321(vec![
        (1, status(9, 0, &[99])),
        (1, status(3, 0, &[33])),
        (2, status(3, 0, &[34])),
        (2, status(1, 0, &[11])),
        (3, status(2, 0, &[22])),
    ]);
    assert_eq!(
        answers,
        vec![
            Ok(response(3, 0, vec![33])),
            Ok(response(1, 0, vec![11])),
            Ok(response(2, 0, vec![22]))
        ]
    );
}

#[test]
fn sync_read_same_motor_twice() {
    let mut bus = Bus::new(Duration::from_millis(50));
    let mut wire = Wire::with(5, vec![(1, status(4, 0, &[1])), (2, status(4, 0, &[2]))]);
    assert_eq!(
        drive(&mut bus, &mut wire, |bus, event| bus.sync_read(&[4, 4], 64, 1, event)),
        Ok(vec![Ok(response(4, 0, vec![1])), Ok(response(4, 0, vec![2]))])
    );
}

#[test]
fn sync_read_of_nobody() {
    let mut bus = Bus::new(Duration::from_millis(50));
    let mut wire = Wire::new(5);
    assert_eq!(
        drive(&mut bus, &mut wire, |bus, event| bus.sync_read(&[], 64, 1, event)),
        Ok(vec![])
    );
    assert_eq!((wire.reads, wire.listens), (0, 0));
    assert_eq!(wire.written.len(), 1);
}

#[test]
fn sync_read_needs_single_motors() {
    let mut bus = Bus::new(Duration::from_millis(50));
    let mut wire = Wire::new(5);
    assert_eq!(
        drive(&mut bus, &mut wire, |bus, event| bus.sync_read(&[1, 0xFE, 0xFF], 64, 1, event)),
        Err(TransferError::Caller(CallerError::InvalidPacketId { packet_id: 0xFE }))
    );
    assert!(wire.written.is_empty());
}

#[test]
fn scan_asks_every_identifier_once() {
    let mut bus = Bus::new(Duration::from_millis(50));
    let mut asked = Vec::new();
    let mut found = Vec::new();
    let mut cursor = Some(0u8);
    while let Some(motor_id) = cursor {
        let arrivals = match motor_id {
            1 => vec![(1, status(1, 0, &[0x06, 0x04, 0x26]))],
            253 => vec![(2, status(253, 0x20, &[0x2E, 0x04, 0x2D]))],
            // A damaged answer.
            7 => vec![(1, vec![0xFF, 0xFF, 0xFD, 0x00, 0x07, 0x04, 0x00, 0x55, 0x00, 0x00, 0x00])],
            // The answer of another motor.
            9 => vec![(1, status(1, 0, &[0x06, 0x04, 0x26]))],
            _ => vec![],
        };
        let mut wire = Wire::with(3, arrivals);
        let Scanned { motor_id: at, outcome, next } =
            drive(&mut bus, &mut wire, |bus, event| bus.scan(motor_id, event)).unwrap();
        assert_eq!(at, motor_id);
        assert_eq!(wire.written.len(), 1);
        assert_eq!(wire.written[0][4], motor_id);
        assert_eq!(wire.written[0][7], instruction_id::PING);
        asked.push(motor_id);
        match outcome {
            Ok(answer) => found.push(answer),
            Err(TransferError::Read(ReadError::InvalidChecksum { .. })) => assert_eq!(motor_id, 7),
            Err(error) => assert_eq!(error, TIMEOUT),
        }
        cursor = next;
    }
    assert_eq!(asked, (0..=253).collect::<Vec<u8>>());
    assert_eq!(
        found,
        vec![
            response(1, 0, Ping { model: 0x0406, firmware: 0x26 }),
            response(253, 0x20, Ping { model: 0x042E, firmware: 0x2D }),
        ]
    );
}

#[test]
fn scan_ends_behind_the_last_identifier() {
    let mut bus = Bus::new(Duration::from_millis(50));
    let mut wire = Wire::new(1);
    let scanned = drive(&mut bus, &mut wire, |bus, event| bus.scan(0xFE, event)).unwrap();
    assert_eq!(
        scanned,
        Scanned {
            motor_id: 0xFE,
            outcome: Err(TransferError::Caller(CallerError::InvalidPacketId {
                packet_id: 0xFE
            })),
            next: None
        }
    );
    assert!(wire.written.is_empty());
}

#[test]
fn status_conversions() {
    let one = StatusPacket { packet_id: 2, alert: 0x01, parameters: vec![0x80] };
    assert_eq!(one.to_u8(), Ok(response(2, 0x01, 0x80u8)));
    assert_eq!(
        one.to_u16(),
        Err(ReadError::InvalidParameterCount(InvalidParameterCount { actual: 1, expected: 2 }))
    );
    assert_eq!(
        one.to_ack(),
        Err(ReadError::InvalidParameterCount(InvalidParameterCount { actual: 1, expected: 0 }))
    );
    let four = StatusPacket { packet_id: 2, alert: 0, parameters: vec![1, 2, 3, 4] };
    assert_eq!(four.to_u32(), Ok(response(2, 0, 0x0403_0201u32)));
    assert_eq!(
        four.to_ping(),
        Err(ReadError::InvalidParameterCount(InvalidParameterCount { actual: 4, expected: 3 }))
    );
    assert_eq!(four.clone().into_bytes(4), Ok(response(2, 0, vec![1, 2, 3, 4])));
    assert_eq!(
        four.clone().into_bytes(3),
        Err(ReadError::InvalidParameterCount(InvalidParameterCount { actual: 4, expected: 3 }))
    );
    assert_eq!(four.clone().expect_parameters(4), Ok(four.clone()));
    let none = StatusPacket { packet_id: 2, alert: 0, parameters: vec![] };
    assert_eq!(none.to_ack(), Ok(response(2, 0, ())));
}

#[test]
fn control_table_addresses() {
    assert_eq!(xm430_w350::ADDR_MODEL_NUMBER, 0);
    assert_eq!(xm430_w350::ADDR_TORQUE_ENABLE, 64);
    assert_eq!(xm430_w350::ADDR_GOAL_POSITION, 116);
    assert_eq!(xm430_w350::ADDR_PRESENT_POSITION, 132);
    assert_eq!(xm430_w350::ADDR_BACKUP_READY, 147);
}

#[test]
fn instruction_longer_than_the_protocol() {
    let mut bus = Bus::with_buffer_sizes(Duration::from_millis(50), 128, usize::MAX);
    let mut wire = Wire::new(5);
    let data = vec![0u8; 0x1_0000];
    assert_eq!(
        drive(&mut bus, &mut wire, |bus, event| bus.write(1, 64, &data, event)),
        Err(TransferError::Write(WriteError::PacketTooLarge))
    );
    let values = vec![vec![0u8; 0x1_0000]];
    assert_eq!(
        drive(&mut bus, &mut wire, |bus, event| bus.sync_write(&[1], 64, &values, event)),
        Err(TransferError::Write(WriteError::PacketTooLarge))
    );
    assert!(wire.written.is_empty());
}

#[test]
fn sync_read_goes_on_behind_a_bad_length() {
    let mut arrival = vec![0xFF, 0xFF, 0xFD, 0x00, 0x03, 0x01, 0x00];
    arrival.extend(status(1, 0, &[11]));
    arrival.extend(status(2, 0, &[22]));
    let (answers, _) = sync_read_321(vec![(1, arrival)]);
    assert_eq!(
        answers,
        vec![
            Err(ReadError::InvalidLength { declared: 1 }),
            Ok(response(1, 0, vec![11])),
            Ok(response(2, 0, vec![22])),
        ]
    );
}

#[test]
fn sync_read_answer_longer_than_the_read_buffer() {
    let mut bus = Bus::with_buffer_sizes(Duration::from_millis(50), 12, 128);
    let mut wire = Wire::with(5, vec![(1, status(1, 0, &[1, 2])), (2, status(2, 0, &[3]))]);
    assert_eq!(
        drive(&mut bus, &mut wire, |bus, event| bus.sync_read(&[1, 2], 64, 1, event)),
        Ok(vec![
            Err(ReadError::BufferTooSmall { required: 13, capacity: 12 }),
            Ok(response(2, 0, vec![3])),
        ])
    );
}

#[test]
fn find_invalid_identifier() {
    assert_eq!(packet_id::find_invalid(&[]), None);
    assert_eq!(packet_id::find_invalid(&[0, 1, 253]), None);
    assert_eq!(packet_id::find_invalid(&[0, 255, 254]), Some(255));
    assert_eq!(packet_id::MAX_UNICAST, 253);
    assert_eq!(packet_id::BROADCAST, 254);
}
