//! Write/notify characteristic pairs and the choice of which pair to probe.

use vstd::prelude::*;
use crate::text::{contains_text, text_contains};

verus! {

/// The Bluetooth Base UUID, into which 16- and 32-bit short UUIDs are placed.
pub const BLUETOOTH_BASE_UUID: u128 = 0x00000000_0000_1000_8000_00805f9b34fb;

/// A write characteristic (`rx`) and the notify characteristic (`tx`) that
/// answers it, with a label such as `FFE1/FFE2`; UUIDs as 128-bit values.
pub struct ChannelPair {
    pub label: String,
    pub rx: u128,
    pub tx: u128,
}

/// The full 128-bit UUID of a 16-bit BLE short UUID: the short value in
/// bits 96..112 of the Bluetooth Base UUID.
pub open spec fn ble_uuid16_spec(short: u16) -> int {
    BLUETOOTH_BASE_UUID + short * 0x1_0000_0000_0000_0000_0000_0000
}

/// The full 128-bit UUID of a 16-bit BLE short UUID.
pub fn ble_uuid16(short: u16) -> (u: u128)
    ensures
        u == ble_uuid16_spec(short),
{
    BLUETOOTH_BASE_UUID + (short as u128) * 0x1_0000_0000_0000_0000_0000_0000u128
}

/// The UART pair used by KooSync-class devices: write FFE1, notify FFE2.
pub fn default_channel() -> (c: ChannelPair)
    ensures
        c.label@ == "FFE1/FFE2"@,
        c.rx == ble_uuid16_spec(0xFFE1),
        c.tx == ble_uuid16_spec(0xFFE2),
{
    ChannelPair { label: String::from_str("FFE1/FFE2"), rx: ble_uuid16(0xFFE1), tx: ble_uuid16(0xFFE2) }
}

/// The pair whose label mentions FFE1.
pub open spec fn is_ffe1(c: ChannelPair) -> bool {
    contains_text(c.label@, "FFE1"@)
}

/// Index of the pair to probe: the first whose label mentions FFE1, else
/// the first pair; `None` when there is no pair.
pub fn choose_channel(channels: &[ChannelPair]) -> (r: Option<usize>)
    ensures
        match r {
            Some(i) => i < channels@.len() && ((is_ffe1(channels@[i as int]) && forall|j: int|
                0 <= j < i ==> !is_ffe1(#[trigger] channels@[j])) || (i == 0 && forall|j: int|
                0 <= j < channels@.len() ==> !is_ffe1(#[trigger] channels@[j]))),
            None => channels@.len() == 0,
        },
{
    let mut i: usize = 0;
    while i < channels.len()
        invariant
            i <= channels@.len(),
            forall|j: int| 0 <= j < i ==> !is_ffe1(#[trigger] channels@[j]),
        decreases channels.len() - i,
    {
        if text_contains(channels[i].label.as_str(), "FFE1") {
            return Some(i);
        }
        i = i + 1;
    }
    if channels.len() > 0 {
        Some(0)
    } else {
        None
    }
}

} // verus!
