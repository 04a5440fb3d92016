use motion_link::crc::{crc16, crc16_range, crc_update};
use motion_link::packet::{
    build_frame, build_status, build_sync_current_request, build_sync_read_request,
    build_sync_write_position, build_sync_write_torque, offset_from_center, parse_status,
    raw_from_offset, DecodeError, DeviceAlert, StatusReport,
};

#[test]
fn crc_check_value() {
    assert_eq!(crc16(b"123456789"), 0xFEE8);
}

#[test]
fn crc_of_nothing_is_zero() {
    assert_eq!(crc16(&[]), 0);
}

#[test]
fn crc_published_ping_vector() {
    let bytes = [0xFF, 0xFF, 0xFD, 0x00, 0x01, 0x03, 0x00, 0x01];
    assert_eq!(crc16(&bytes), 0x4E19);
}

#[test]
fn crc_range_covers_the_slice_only() {
    let bytes = [0xAA, 0xFF, 0xFF, 0xFD, 0x00, 0x01, 0x03, 0x00, 0x01, 0x55];
    assert_eq!(crc16_range(&bytes, 1, 9), 0x4E19);
    assert_eq!(crc16_range(&bytes, 3, 3), 0);
}

#[test]
fn crc_update_one_byte() {
    assert_eq!(crc_update(0, 0x01), 0x8005);
    assert_eq!(crc_update(0, 0x00), 0x0000);
}

#[test]
fn frame_layout() {
    let packet = build_frame(0x01, 0x01, &[]);
    assert_eq!(packet[..8], [0xFF, 0xFF, 0xFD, 0x00, 0x01, 0x03, 0x00, 0x01]);
    assert_eq!(packet.len(), 10);
    let crc = crc16(&packet[4..8]);
    assert_eq!(packet[8], (crc & 0xFF) as u8);
    assert_eq!(packet[9], (crc >> 8) as u8);
}

#[test]
fn torque_on_packet_bytes() {
    let packet = build_sync_write_torque(&[11, 12], true);
    assert_eq!(
        packet,
        vec![
            0xFF, 0xFF, 0xFD, 0x00, 0xFE, 0x0B, 0x00, 0x83, 0x40, 0x00, 0x01, 0x00, 0x0B, 0x01,
            0x0C, 0x01, 0x35, 0x48
        ]
    );
}

#[test]
fn torque_off_packet_bytes() {
    let packet = build_sync_write_torque(&[11, 12], false);
    assert_eq!(
        packet,
        vec![
            0xFF, 0xFF, 0xFD, 0x00, 0xFE, 0x0B, 0x00, 0x83, 0x40, 0x00, 0x01, 0x00, 0x0B, 0x00,
            0x0C, 0x00, 0x27, 0x48
        ]
    );
}

#[test]
fn position_packet_bytes() {
    let packet = build_sync_write_position(&[11, 12], &[2048, -1]);
    assert_eq!(
        packet,
        vec![
            0xFF, 0xFF, 0xFD, 0x00, 0xFE, 0x11, 0x00, 0x83, 0x74, 0x00, 0x04, 0x00, 0x0B, 0x00,
            0x08, 0x00, 0x00, 0x0C, 0xFF, 0xFF, 0xFF, 0xFF, 0x48, 0xA4
        ]
    );
}

#[test]
fn position_packet_without_motors() {
    let packet = build_sync_write_position(&[], &[]);
    assert_eq!(packet.len(), 14);
    assert_eq!(packet[4..12], [0xFE, 0x07, 0x00, 0x83, 0x74, 0x00, 0x04, 0x00]);
}

#[test]
fn read_request_bytes() {
    let packet = build_sync_read_request(&[11, 12, 13], 132, 4);
    assert_eq!(
        packet,
        vec![
            0xFF, 0xFF, 0xFD, 0x00, 0xFE, 0x0A, 0x00, 0x82, 0x84, 0x00, 0x04, 0x00, 0x0B, 0x0C,
            0x0D, 0x07, 0x1F
        ]
    );
}

#[test]
fn current_request_reads_present_position() {
    assert_eq!(
        build_sync_current_request(&[11, 12, 13]),
        build_sync_read_request(&[11, 12, 13], 132, 4)
    );
}

#[test]
fn status_bytes() {
    assert_eq!(
        build_status(11, 0, 2048),
        vec![
            0xFF, 0xFF, 0xFD, 0x00, 0x0B, 0x08, 0x00, 0x55, 0x00, 0x00, 0x08, 0x00, 0x00, 0x60,
            0xA1
        ]
    );
    assert_eq!(
        build_status(12, 0x80, -5),
        vec![
            0xFF, 0xFF, 0xFD, 0x00, 0x0C, 0x08, 0x00, 0x55, 0x80, 0xFB, 0xFF, 0xFF, 0xFF, 0xC9,
            0x5E
        ]
    );
}

#[test]
fn status_round_trip() {
    let values = [0, 1, -1, 2048, 4095, 255, 256, 65536, i32::MAX, i32::MIN, -123456];
    for id in [0u8, 1, 11, 18, 252, 254, 255] {
        for error in [0u8, 1, 0x80, 0xFF] {
            for value in values {
                let packet = build_status(id, error, value);
                assert_eq!(packet.len(), 15);
                assert_eq!(parse_status(&packet, 0), Ok(StatusReport { id, value, error }));
            }
        }
    }
}

#[test]
fn status_round_trip_at_an_offset() {
    let mut buffer = vec![0x00, 0xFF, 0x12];
    buffer.extend(build_status(11, 0, 2048));
    buffer.extend(build_status(12, 0, 1000));
    buffer.push(0x99);
    assert_eq!(parse_status(&buffer, 3), Ok(StatusReport { id: 11, value: 2048, error: 0 }));
    assert_eq!(parse_status(&buffer, 18), Ok(StatusReport { id: 12, value: 1000, error: 0 }));
}

#[test]
fn every_single_bit_flip_is_detected() {
    for (id, error, value) in [(11u8, 0u8, 2048i32), (18, 0x80, -7), (0, 0, 0), (255, 255, -1)] {
        let packet = build_status(id, error, value);
        for index in 0..packet.len() {
            for bit in 0..8 {
                let mut damaged = packet.clone();
                damaged[index] ^= 1 << bit;
                assert!(parse_status(&damaged, 0).is_err());
            }
        }
    }
}

#[test]
fn every_single_byte_change_is_detected() {
    let packet = build_status(14, 0, 3000);
    for index in 0..packet.len() {
        for byte in 0..=255u8 {
            if byte != packet[index] {
                let mut damaged = packet.clone();
                damaged[index] = byte;
                assert!(parse_status(&damaged, 0).is_err());
            }
        }
    }
}

#[test]
fn short_buffer_is_truncated() {
    let packet = build_status(11, 0, 2048);
    assert_eq!(parse_status(&packet[..14], 0), Err(DecodeError::Truncated));
    assert_eq!(parse_status(&packet, 1), Err(DecodeError::Truncated));
    assert_eq!(parse_status(&[], 0), Err(DecodeError::Truncated));
    assert_eq!(parse_status(&packet, usize::MAX), Err(DecodeError::Truncated));
}

#[test]
fn wrong_header_is_rejected() {
    let mut packet = build_status(11, 0, 2048);
    packet[2] = 0xFF;
    assert_eq!(parse_status(&packet, 0), Err(DecodeError::BadHeader));
}

#[test]
fn other_instruction_is_rejected() {
    let packet = build_frame(11, 0x02, &[0, 0, 8, 0, 0]);
    assert_eq!(packet.len(), 15);
    assert_eq!(parse_status(&packet, 0), Err(DecodeError::UnexpectedInstruction));
}

#[test]
fn other_length_is_rejected() {
    let packet = build_frame(11, 0x55, &[0, 0, 8, 0, 0, 0, 0, 0, 0]);
    assert_eq!(parse_status(&packet, 0), Err(DecodeError::LengthMismatch));
}

#[test]
fn wrong_checksum_is_rejected() {
    let mut packet = build_status(11, 0, 2048);
    packet[13] ^= 0x01;
    assert_eq!(parse_status(&packet, 0), Err(DecodeError::ChecksumMismatch));
    let mut packet = build_status(11, 0, 2048);
    packet[10] = 0x09;
    assert_eq!(parse_status(&packet, 0), Err(DecodeError::ChecksumMismatch));
}

#[test]
fn bad_region_does_not_hide_the_next() {
    let mut buffer = build_status(11, 0, 2048);
    buffer[9] ^= 0x10;
    buffer.extend(build_status(12, 0, 1000));
    assert_eq!(parse_status(&buffer, 0), Err(DecodeError::ChecksumMismatch));
    assert_eq!(parse_status(&buffer, 15), Ok(StatusReport { id: 12, value: 1000, error: 0 }));
}

#[test]
fn nonzero_error_byte_is_an_advisory() {
    let report = parse_status(&build_status(13, 0x84, 2000), 0).unwrap();
    assert_eq!(report.value, 2000);
    assert_eq!(report.advisory(), Some(DeviceAlert { id: 13, code: 0x84 }));
    let quiet = parse_status(&build_status(13, 0, 2000), 0).unwrap();
    assert_eq!(quiet.advisory(), None);
}

#[test]
fn steps_from_center() {
    assert_eq!(offset_from_center(2048), 0);
    assert_eq!(offset_from_center(0), -2048);
    assert_eq!(offset_from_center(4095), 2047);
    assert_eq!(offset_from_center(i32::MIN), -2147483648 - 2048);
    assert_eq!(raw_from_offset(0), Some(2048));
    assert_eq!(raw_from_offset(-2048), Some(0));
    assert_eq!(raw_from_offset(2047), Some(4095));
    assert_eq!(raw_from_offset(2147483647 - 2048), Some(i32::MAX));
    assert_eq!(raw_from_offset(2147483647 - 2047), None);
    assert_eq!(raw_from_offset(-2147483648 - 2048), Some(i32::MIN));
    assert_eq!(raw_from_offset(-2147483648 - 2049), None);
    assert_eq!(raw_from_offset(i64::MAX), None);
}

#[test]
fn steps_round_trip() {
    for raw in [0, 1, 2047, 2048, 2049, 4095, -1, i32::MAX, i32::MIN] {
        assert_eq!(raw_from_offset(offset_from_center(raw)), Some(raw));
    }
}
