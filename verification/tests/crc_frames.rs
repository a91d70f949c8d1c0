use jetpack_hack::crc::{crc8_of, frame_with_aa, frame_with_crc};

#[test]
fn stretch_level1_crc() {
    assert_eq!(
        frame_with_crc([0x55, 0x08, 0x00, 0x00, 0x01, 0x01]),
        [0x55, 0x08, 0x00, 0x00, 0x01, 0x01, 0xFC]
    );
}

#[test]
fn m1_travel5_crc() {
    assert_eq!(
        frame_with_crc([0x55, 0x08, 0x00, 0x03, 0x01, 0x05]),
        [0x55, 0x08, 0x00, 0x03, 0x01, 0x05, 0xF4]
    );
}

#[test]
fn m8_travel5_crc() {
    assert_eq!(
        frame_with_crc([0x55, 0x08, 0x00, 0x03, 0x08, 0x05]),
        [0x55, 0x08, 0x00, 0x03, 0x08, 0x05, 0xFE]
    );
}

/// Every CRC-tailed command confirmed on the device.
const VERIFIED_CRC_FRAMES: [[u8; 7]; 37] = [
    [0x55, 0x02, 0x00, 0x00, 0x00, 0x00, 0xFC],
    [0x55, 0xA0, 0x00, 0x00, 0x00, 0x00, 0xFB],
    [0x55, 0x08, 0x00, 0x01, 0x00, 0x00, 0xF9],
    [0x55, 0x08, 0x00, 0x00, 0x01, 0x01, 0xFC],
    [0x55, 0x08, 0x00, 0x00, 0x01, 0x02, 0xFB],
    [0x55, 0x08, 0x00, 0x00, 0x02, 0x03, 0xF7],
    [0x55, 0x08, 0x00, 0x00, 0x03, 0x04, 0xF6],
    [0x55, 0x08, 0x00, 0x00, 0x04, 0x03, 0xF9],
    [0x55, 0x08, 0x00, 0x00, 0x05, 0x06, 0xF0],
    [0x55, 0x08, 0x00, 0x00, 0x06, 0x07, 0xFC],
    [0x55, 0x08, 0x00, 0x00, 0x07, 0x08, 0xFF],
    [0x55, 0x08, 0x00, 0x00, 0x08, 0x09, 0xF4],
    [0x55, 0x08, 0x00, 0x00, 0x08, 0x0A, 0xF3],
    [0x55, 0x08, 0x00, 0x03, 0x01, 0x01, 0xF0],
    [0x55, 0x08, 0x00, 0x03, 0x01, 0x05, 0xF4],
    [0x55, 0x08, 0x00, 0x03, 0x01, 0x0A, 0xF5],
    [0x55, 0x08, 0x00, 0x03, 0x02, 0x01, 0xF3],
    [0x55, 0x08, 0x00, 0x03, 0x02, 0x05, 0xF7],
    [0x55, 0x08, 0x00, 0x03, 0x02, 0x0A, 0xF6],
    [0x55, 0x08, 0x00, 0x03, 0x03, 0x01, 0xF1],
    [0x55, 0x08, 0x00, 0x03, 0x03, 0x05, 0xF5],
    [0x55, 0x08, 0x00, 0x03, 0x03, 0x0A, 0xF4],
    [0x55, 0x08, 0x00, 0x03, 0x04, 0x01, 0xFD],
    [0x55, 0x08, 0x00, 0x03, 0x04, 0x05, 0xF9],
    [0x55, 0x08, 0x00, 0x03, 0x04, 0x0A, 0xF8],
    [0x55, 0x08, 0x00, 0x03, 0x05, 0x01, 0xFF],
    [0x55, 0x08, 0x00, 0x03, 0x05, 0x05, 0xFB],
    [0x55, 0x08, 0x00, 0x03, 0x05, 0x0A, 0xFA],
    [0x55, 0x08, 0x00, 0x03, 0x06, 0x01, 0xFC],
    [0x55, 0x08, 0x00, 0x03, 0x06, 0x05, 0xF8],
    [0x55, 0x08, 0x00, 0x03, 0x06, 0x0A, 0xF9],
    [0x55, 0x08, 0x00, 0x03, 0x07, 0x01, 0xFE],
    [0x55, 0x08, 0x00, 0x03, 0x07, 0x05, 0xFA],
    [0x55, 0x08, 0x00, 0x03, 0x07, 0x0A, 0xFB],
    [0x55, 0x08, 0x00, 0x03, 0x08, 0x01, 0xFA],
    [0x55, 0x08, 0x00, 0x03, 0x08, 0x05, 0xFE],
    [0x55, 0x08, 0x00, 0x03, 0x08, 0x0A, 0xFF],
];

#[test]
fn every_verified_crc_command_matches() {
    for frame in VERIFIED_CRC_FRAMES {
        let body = [frame[0], frame[1], frame[2], frame[3], frame[4], frame[5]];
        assert_eq!(frame_with_crc(body), frame, "frame {:02X?}", frame);
        assert_eq!(crc8_of(&body), frame[6]);
    }
}

#[test]
fn crc_of_empty_and_longer_inputs() {
    // register 0xFF, no bytes: reflect(0xFF) ^ 0xFF
    assert_eq!(crc8_of(&[]), 0x00);
    // the check byte depends on every body byte
    assert_ne!(
        crc8_of(&[0x55, 0x08, 0x00, 0x03, 0x01, 0x05]),
        crc8_of(&[0x55, 0x08, 0x00, 0x03, 0x01, 0x04])
    );
}

#[test]
fn verified_aa_commands_match() {
    for scale in [0x00u8, 0x20, 0x40, 0x80, 0xCC, 0xFF] {
        assert_eq!(
            frame_with_aa([0x55, 0x04, 0x00, 0x00, 0x00, scale]),
            [0x55, 0x04, 0x00, 0x00, 0x00, scale, 0xAA]
        );
    }
}
