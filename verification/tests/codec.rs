use dynamixel2::alert::{self, AlertFlags};
use dynamixel2::bytestuff::{stuff, unstuff};
use dynamixel2::checksum::calculate_checksum;
use dynamixel2::endian::{read_u16_le, read_u32_le, write_u16_le, write_u32_le};
use dynamixel2::instructions::instruction_id;
use dynamixel2::packet::{decode_frame, encode_into, MAX_PACKET_SIZE};
use dynamixel2::{InvalidParameterCount, Packet, ReadError, StatusPacket, WriteError};

const PING_1: [u8; 10] = [0xFF, 0xFF, 0xFD, 0x00, 0x01, 0x03, 0x00, 0x01, 0x19, 0x4E];

const READ_1: [u8; 14] = [
    0xFF, 0xFF, 0xFD, 0x00, 0x01, 0x07, 0x00, 0x02, 0x84, 0x00, 0x04, 0x00, 0x1D, 0x15,
];

const STATUS_1: [u8; 15] = [
    0xFF, 0xFF, 0xFD, 0x00, 0x01, 0x08, 0x00, 0x55, 0x00, 0xA6, 0x00, 0x00, 0x00, 0x8C, 0xC0,
];

fn encode(packet_id: u8, instruction_id: u8, parameters: &[u8]) -> Result<Vec<u8>, WriteError> {
    let mut buffer = Vec::new();
    encode_into(&mut buffer, MAX_PACKET_SIZE, packet_id, instruction_id, parameters)?;
    Ok(buffer)
}

#[test]
fn read_u16_le_decodes_low_byte_first() {
    assert_eq!(read_u16_le(&[0x34, 0x12]), Ok(0x1234));
    assert_eq!(read_u16_le(&[0xFF, 0xFF]), Ok(0xFFFF));
    assert_eq!(read_u16_le(&[0x84, 0x00, 0x99]), Ok(132));
}

#[test]
fn read_u16_le_refuses_short_buffer() {
    assert_eq!(read_u16_le(&[0x34]), Err(InvalidParameterCount { actual: 1, expected: 2 }));
    assert_eq!(read_u16_le(&[]), Err(InvalidParameterCount { actual: 0, expected: 2 }));
}

#[test]
fn read_u32_le_decodes_low_byte_first() {
    assert_eq!(read_u32_le(&[0x78, 0x56, 0x34, 0x12]), Ok(0x1234_5678));
    assert_eq!(read_u32_le(&[0x10, 0x00, 0x00, 0x00]), Ok(16));
    assert_eq!(read_u32_le(&[0xFF, 0xFF, 0xFF, 0xFF]), Ok(u32::MAX));
}

#[test]
fn read_u32_le_refuses_short_buffer() {
    assert_eq!(read_u32_le(&[1, 2, 3]), Err(InvalidParameterCount { actual: 3, expected: 4 }));
}

#[test]
fn write_u16_le_writes_at_offset_only() {
    let mut buffer = [0xAAu8; 5];
    write_u16_le(&mut buffer, 2, 0x1234);
    assert_eq!(buffer, [0xAA, 0xAA, 0x34, 0x12, 0xAA]);
}

#[test]
fn write_u32_le_writes_at_offset_only() {
    let mut buffer = [0xAAu8; 6];
    write_u32_le(&mut buffer, 1, 0x1234_5678);
    assert_eq!(buffer, [0xAA, 0x78, 0x56, 0x34, 0x12, 0xAA]);
}

#[test]
fn write_then_read_gives_the_value() {
    let mut buffer = [0u8; 4];
    for value in [0u16, 1, 255, 256, 0x8005, u16::MAX] {
        write_u16_le(&mut buffer, 0, value);
        assert_eq!(read_u16_le(&buffer), Ok(value));
    }
    for value in [0u32, 1, 0xFFFF, 0x1_0000, 0xDEAD_BEEF, u32::MAX] {
        write_u32_le(&mut buffer, 0, value);
        assert_eq!(read_u32_le(&buffer), Ok(value));
    }
}

#[test]
fn invalid_parameter_count_check() {
    assert_eq!(InvalidParameterCount::check(4, 4), Ok(()));
    assert_eq!(
        InvalidParameterCount::check(1, 2),
        Err(InvalidParameterCount { actual: 1, expected: 2 })
    );
}

#[test]
fn checksum_of_nothing_is_the_initial_value() {
    assert_eq!(calculate_checksum(0, &[]), 0);
    assert_eq!(calculate_checksum(0x1234, &[]), 0x1234);
}

#[test]
fn checksum_matches_the_protocol() {
    assert_eq!(calculate_checksum(0, &PING_1[..8]), 0x4E19);
    assert_eq!(calculate_checksum(0, &READ_1[..12]), 0x151D);
    assert_eq!(calculate_checksum(0, &STATUS_1[..13]), 0xC08C);
    assert_eq!(calculate_checksum(0, &[0x01]), 0x8005);
}

#[test]
fn checksum_can_be_taken_in_pieces() {
    let whole = calculate_checksum(0, &READ_1[..12]);
    let first = calculate_checksum(0, &READ_1[..5]);
    assert_eq!(calculate_checksum(first, &READ_1[5..12]), whole);
}

#[test]
fn stuff_adds_a_byte_behind_the_pattern() {
    assert_eq!(stuff(&[0xFF, 0xFF, 0xFD]), vec![0xFF, 0xFF, 0xFD, 0xFD]);
    assert_eq!(stuff(&[0x01, 0xFF, 0xFF, 0xFD, 0x02]), vec![0x01, 0xFF, 0xFF, 0xFD, 0xFD, 0x02]);
    assert_eq!(stuff(&[0xFF, 0xFF, 0xFF, 0xFD]), vec![0xFF, 0xFF, 0xFF, 0xFD, 0xFD]);
    assert_eq!(
        stuff(&[0xFF, 0xFF, 0xFD, 0xFF, 0xFF, 0xFD]),
        vec![0xFF, 0xFF, 0xFD, 0xFD, 0xFF, 0xFF, 0xFD, 0xFD]
    );
}

#[test]
fn stuff_leaves_other_bytes_alone() {
    assert_eq!(stuff(&[]), Vec::<u8>::new());
    assert_eq!(stuff(&[0xFF, 0xFD, 0xFF, 0xFD]), vec![0xFF, 0xFD, 0xFF, 0xFD]);
    assert_eq!(stuff(&[0xFF, 0xFF, 0x00, 0xFD]), vec![0xFF, 0xFF, 0x00, 0xFD]);
    assert_eq!(stuff(&[0xFF, 0xFF, 0xFD, 0xFD]), vec![0xFF, 0xFF, 0xFD, 0xFD, 0xFD]);
}

#[test]
fn unstuff_takes_the_byte_out() {
    assert_eq!(unstuff(&[0xFF, 0xFF, 0xFD, 0xFD]), Some(vec![0xFF, 0xFF, 0xFD]));
    assert_eq!(unstuff(&[0x01, 0x02]), Some(vec![0x01, 0x02]));
    assert_eq!(unstuff(&[]), Some(vec![]));
    assert_eq!(
        unstuff(&[0xFF, 0xFF, 0xFD, 0xFD, 0xFD]),
        Some(vec![0xFF, 0xFF, 0xFD, 0xFD])
    );
}

#[test]
fn unstuff_refuses_a_bare_pattern() {
    assert_eq!(unstuff(&[0xFF, 0xFF, 0xFD]), None);
    assert_eq!(unstuff(&[0xFF, 0xFF, 0xFD, 0x00]), None);
    assert_eq!(unstuff(&[0x07, 0xFF, 0xFF, 0xFF, 0xFD, 0x01]), None);
}

#[test]
fn unstuff_undoes_stuff() {
    let bytes = [0xFFu8, 0xFD, 0x00];
    // Every sequence of up to six of the three bytes that matter.
    for len in 0..=6usize {
        for code in 0..3usize.pow(len as u32) {
            let mut data = Vec::new();
            let mut rest = code;
            for _ in 0..len {
                data.push(bytes[rest % 3]);
                rest /= 3;
            }
            let stuffed = stuff(&data);
            assert_eq!(unstuff(&stuffed), Some(data.clone()));
            assert!(!stuffed.windows(4).any(|w| w == [0xFF, 0xFF, 0xFD, 0x00]));
        }
    }
}

#[test]
fn encode_ping_instruction() {
    assert_eq!(encode(1, instruction_id::PING, &[]), Ok(PING_1.to_vec()));
}

#[test]
fn encode_read_instruction() {
    assert_eq!(encode(1, instruction_id::READ, &[0x84, 0x00, 0x04, 0x00]), Ok(READ_1.to_vec()));
}

#[test]
fn encode_stuffs_the_parameters() {
    let frame = encode(2, instruction_id::WRITE, &[0xFF, 0xFF, 0xFD, 0x00]).unwrap();
    assert_eq!(&frame[..4], &[0xFF, 0xFF, 0xFD, 0x00]);
    assert_eq!(frame[4], 2);
    // Opcode, four parameter bytes, one stuffing byte, checksum.
    assert_eq!(&frame[5..7], &[8, 0]);
    assert_eq!(&frame[7..13], &[0x03, 0xFF, 0xFF, 0xFD, 0xFD, 0x00]);
    assert_eq!(frame.len(), 15);
    let crc = calculate_checksum(0, &frame[..13]);
    assert_eq!(&frame[13..], &[(crc & 0xFF) as u8, (crc >> 8) as u8]);
}

#[test]
fn encode_reuses_the_buffer() {
    let mut buffer = vec![1, 2, 3];
    assert_eq!(encode_into(&mut buffer, 128, 1, instruction_id::PING, &[]), Ok(()));
    assert_eq!(buffer, PING_1.to_vec());
}

#[test]
fn encode_refuses_a_frame_longer_than_the_buffer() {
    let mut buffer = Vec::new();
    assert_eq!(
        encode_into(&mut buffer, 13, 1, instruction_id::READ, &[0x84, 0x00, 0x04, 0x00]),
        Err(WriteError::BufferTooSmall { required: 14, capacity: 13 })
    );
    assert_eq!(
        encode_into(&mut buffer, 14, 1, instruction_id::READ, &[0x84, 0x00, 0x04, 0x00]),
        Ok(())
    );
}

#[test]
fn encode_refuses_a_frame_longer_than_the_protocol() {
    let longest = vec![0u8; 0xFFFF - 3];
    let frame = encode(1, instruction_id::WRITE, &longest).unwrap();
    assert_eq!(frame.len(), MAX_PACKET_SIZE);
    assert_eq!(&frame[5..7], &[0xFF, 0xFF]);
    let too_long = vec![0u8; 0xFFFF - 2];
    assert_eq!(encode(1, instruction_id::WRITE, &too_long), Err(WriteError::PacketTooLarge));
    let far_too_long = vec![0u8; 0x2_0000];
    assert_eq!(encode(1, instruction_id::WRITE, &far_too_long), Err(WriteError::PacketTooLarge));
}

#[test]
fn decode_reads_an_instruction() {
    assert_eq!(
        decode_frame(&READ_1),
        Ok(Packet { packet_id: 1, instruction_id: 0x02, parameters: vec![0x84, 0x00, 0x04, 0x00] })
    );
}

#[test]
fn decode_reads_a_status() {
    assert_eq!(
        StatusPacket::decode(&STATUS_1),
        Ok(StatusPacket { packet_id: 1, alert: 0, parameters: vec![0xA6, 0x00, 0x00, 0x00] })
    );
}

#[test]
fn decode_refuses_a_missing_marker() {
    let mut frame = PING_1;
    frame[2] = 0xFE;
    assert_eq!(decode_frame(&frame), Err(ReadError::MissingHeader));
    assert_eq!(decode_frame(&PING_1[..6]), Err(ReadError::MissingHeader));
    assert_eq!(decode_frame(&[]), Err(ReadError::MissingHeader));
}

#[test]
fn decode_refuses_a_length_without_room() {
    let frame = [0xFF, 0xFF, 0xFD, 0x00, 0x01, 0x02, 0x00, 0x01, 0x02];
    assert_eq!(decode_frame(&frame), Err(ReadError::InvalidLength { declared: 2 }));
}

#[test]
fn decode_refuses_a_wrong_size() {
    assert_eq!(
        decode_frame(&READ_1[..13]),
        Err(ReadError::SizeMismatch { declared: 7, available: 6 })
    );
    let mut longer = READ_1.to_vec();
    longer.push(0);
    assert_eq!(
        decode_frame(&longer),
        Err(ReadError::SizeMismatch { declared: 7, available: 8 })
    );
}

#[test]
fn decode_refuses_a_wrong_checksum() {
    let mut frame = READ_1;
    frame[12] = 0x1E;
    assert_eq!(
        decode_frame(&frame),
        Err(ReadError::InvalidChecksum { message: 0x151E, computed: 0x151D })
    );
}

#[test]
fn decode_refuses_a_bare_pattern() {
    let mut frame = vec![0xFF, 0xFF, 0xFD, 0x00, 0x01, 0x06, 0x00, 0x55, 0xFF, 0xFF, 0xFD];
    let crc = calculate_checksum(0, &frame);
    frame.push((crc & 0xFF) as u8);
    frame.push((crc >> 8) as u8);
    assert_eq!(decode_frame(&frame), Err(ReadError::InvalidStuffing));
}

#[test]
fn status_has_to_carry_the_status_opcode() {
    assert_eq!(
        StatusPacket::decode(&READ_1),
        Err(ReadError::InvalidInstruction { actual: 0x02, expected: 0x55 })
    );
}

#[test]
fn status_has_to_carry_an_alert_byte() {
    let frame = encode(1, instruction_id::STATUS, &[]).unwrap();
    assert_eq!(
        StatusPacket::decode(&frame),
        Err(ReadError::InvalidParameterCount(InvalidParameterCount { actual: 0, expected: 1 }))
    );
}

#[test]
fn status_from_packet() {
    let packet = Packet { packet_id: 9, instruction_id: 0x55, parameters: vec![0x20, 1, 2] };
    assert_eq!(
        StatusPacket::from_packet(packet),
        Ok(StatusPacket { packet_id: 9, alert: 0x20, parameters: vec![1, 2] })
    );
}

#[test]
fn status_encode_matches_the_protocol() {
    let status = StatusPacket { packet_id: 1, alert: 0, parameters: vec![0xA6, 0x00, 0x00, 0x00] };
    assert_eq!(status.encode(), Ok(STATUS_1.to_vec()));
}

#[test]
fn frames_round_trip() {
    let payloads: [&[u8]; 6] = [
        &[],
        &[0x00],
        &[0xFF, 0xFF, 0xFD],
        &[0xFF, 0xFF, 0xFD, 0x00, 0xFF, 0xFF, 0xFD, 0xFD],
        &[0xFD, 0xFF, 0xFF, 0xFF, 0xFD, 0x55],
        &[1, 2, 3, 4, 5, 6, 7, 8, 9, 10, 11, 12],
    ];
    for packet_id in [0u8, 5, 253, 254] {
        for opcode in [0x01u8, 0x02, 0x55, 0x83, 0xFF, 0xFD] {
            for payload in payloads {
                let frame = encode(packet_id, opcode, payload).unwrap();
                assert_eq!(
                    decode_frame(&frame),
                    Ok(Packet {
                        packet_id,
                        instruction_id: opcode,
                        parameters: payload.to_vec()
                    })
                );
            }
        }
    }
}

#[test]
fn status_frames_round_trip() {
    for alert in [0x00u8, 0x01, 0x24, 0xFF] {
        let status = StatusPacket { packet_id: 7, alert, parameters: vec![0xFF, 0xFD, 0x10] };
        let frame = status.encode().unwrap();
        assert_eq!(StatusPacket::decode(&frame), Ok(status));
    }
}

#[test]
fn every_flipped_bit_is_detected() {
    let frame = encode(5, instruction_id::WRITE, &[0x74, 0x00, 0xFF, 0xFF, 0xFD, 0x00]).unwrap();
    for index in 0..frame.len() {
        for bit in 0..8 {
            let mut damaged = frame.clone();
            damaged[index] ^= 1 << bit;
            let result = decode_frame(&damaged);
            assert!(result.is_err(), "byte {index}, bit {bit}");
            if index >= 7 {
                assert!(
                    matches!(result, Err(ReadError::InvalidChecksum { .. })),
                    "byte {index}, bit {bit}"
                );
            }
        }
    }
}

#[test]
fn alert_flags_are_independent() {
    let clear = AlertFlags::from_bits(0);
    assert!(clear.is_clear());
    assert!(!clear.input_voltage() && !clear.overheating() && !clear.encoder());
    assert!(!clear.electrical_shock() && !clear.overload());

    let hot = AlertFlags::from_bits(alert::OVERHEATING);
    assert!(!hot.is_clear());
    assert!(hot.overheating());
    assert!(!hot.input_voltage() && !hot.encoder() && !hot.electrical_shock() && !hot.overload());

    let both = AlertFlags::from_bits(alert::INPUT_VOLTAGE | alert::OVERLOAD);
    assert!(both.input_voltage() && both.overload());
    assert!(!both.overheating() && !both.encoder() && !both.electrical_shock());
    assert!(both.contains(alert::INPUT_VOLTAGE | alert::OVERLOAD));
    assert!(!both.contains(alert::INPUT_VOLTAGE | alert::ENCODER));

    let shocked = AlertFlags::from_bits(alert::ELECTRICAL_SHOCK | alert::ENCODER);
    assert!(shocked.electrical_shock() && shocked.encoder());
    assert_eq!(shocked.bits, 0x18);
}

#[test]
fn status_alert_flags() {
    let status = StatusPacket { packet_id: 1, alert: 0x20, parameters: vec![] };
    assert_eq!(status.alert_flags(), AlertFlags { bits: 0x20 });
    assert!(status.alert_flags().overload());
}
