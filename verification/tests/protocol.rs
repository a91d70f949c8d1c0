use jetpack_hack::channel::{ble_uuid16, choose_channel, default_channel, ChannelPair};
use jetpack_hack::crc::frame_with_crc;
use jetpack_hack::jetpack_protocol::{
    kaotik_scan_bonus, uart_burst_candidates, BATTERY_QUERY, HANDSHAKE, KAOTIK_ADV_SERVICE,
    KAOTIK_CTRL_SERVICE,
};

#[test]
fn burst_candidates_in_order() {
    let frames = uart_burst_candidates();
    let labels: Vec<&str> = frames.iter().map(|(l, _)| *l).collect();
    assert_eq!(
        labels,
        vec![
            "boost_00", "boost_20", "boost_40", "boost_80", "boost_FF", "stretch_l1", "stretch_stop",
            "m1_t1", "m1_t5", "m2_t5", "m3_t3", "m4_t5", "m5_t5", "m6_t5", "m7_t5", "m8_t5",
            "legacy_vibe", "battery_query",
        ]
    );
    assert_eq!(frames[0].1, vec![0x55, 0x04, 0x00, 0x00, 0x00, 0x00, 0xAA]);
    assert_eq!(frames[4].1, vec![0x55, 0x04, 0x00, 0x00, 0x00, 0xFF, 0xAA]);
    assert_eq!(frames[5].1, vec![0x55, 0x08, 0x00, 0x00, 0x01, 0x01, 0xFC]);
    assert_eq!(frames[6].1, vec![0x55, 0x08, 0x00, 0x01, 0x00, 0x00, 0xF9]);
    assert_eq!(frames[15].1, vec![0x55, 0x08, 0x00, 0x03, 0x08, 0x05, 0xFE]);
    assert_eq!(frames[17].1, BATTERY_QUERY.to_vec());
}

#[test]
fn battery_query_is_a_crc_frame() {
    assert_eq!(frame_with_crc([0x55, 0x02, 0x00, 0x00, 0x00, 0x00]), BATTERY_QUERY);
}

#[test]
fn handshake_frames() {
    assert_eq!(HANDSHAKE[0], [0x55, 0x04, 0x00, 0x00, 0x01, 0xFF, 0xAA]);
    assert_eq!(HANDSHAKE[1], [0x55, 0x04, 0x00, 0x00, 0x00, 0x00, 0xAA]);
    assert_eq!(HANDSHAKE[2], [0x55, 0x03, 0x00, 0x00, 0x00, 0x00, 0x00]);
}

#[test]
fn scan_bonus_for_kaotik_services() {
    let other = ble_uuid16(0x180F);
    assert_eq!(kaotik_scan_bonus(&[]), 0);
    assert_eq!(kaotik_scan_bonus(&[other]), 0);
    assert_eq!(kaotik_scan_bonus(&[other, KAOTIK_ADV_SERVICE]), 70);
    assert_eq!(kaotik_scan_bonus(&[KAOTIK_CTRL_SERVICE, KAOTIK_ADV_SERVICE]), 70);
}

#[test]
fn short_uuids_and_default_channel() {
    assert_eq!(ble_uuid16(0xFFE1), 0x0000ffe1_0000_1000_8000_00805f9b34fb);
    let c = default_channel();
    assert_eq!(c.label, "FFE1/FFE2");
    assert_eq!(c.rx, 0x0000ffe1_0000_1000_8000_00805f9b34fb);
    assert_eq!(c.tx, 0x0000ffe2_0000_1000_8000_00805f9b34fb);
}

fn pair(label: &str) -> ChannelPair {
    ChannelPair { label: label.to_string(), rx: 1, tx: 2 }
}

#[test]
fn channel_choice_prefers_ffe1() {
    assert_eq!(choose_channel(&[]), None);
    assert_eq!(choose_channel(&[pair("FFF1/FFF2"), pair("FFE1/FFE2")]), Some(1));
    assert_eq!(choose_channel(&[pair("FFF1/FFF2"), pair("AAAA")]), Some(0));
}
