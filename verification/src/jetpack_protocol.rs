//! HF470 / KooSync UART framing for Kaotik The Jetpack: product constants
//! and the candidate frames used for motor probing on FFE1.

use vstd::prelude::*;
use crate::crc::{
    aa_frame, crc_checks, crc_frame, frame_with_aa, frame_with_crc, is_uart_frame,
    lemma_frames_well_formed, crc8, AA_TAIL,
};

verus! {

/// Advertised GATT service UUID seen on some Kaotik peripherals (as its 128-bit value).
pub const KAOTIK_ADV_SERVICE: u128 = 0xdaf55d01_0000_1000_8000_00805f9b34fb;

/// Control GATT service UUID seen on some Kaotik peripherals (as its 128-bit value).
pub const KAOTIK_CTRL_SERVICE: u128 = 0x015df5da_0000_1000_8000_00805f9b34fb;

/// Optional 3-frame session init (KooSync / Svakom UART family).
pub const HANDSHAKE: [[u8; 7]; 3] = [
    [0x55, 0x04, 0x00, 0x00, 0x01, 0xFF, 0xAA],
    [0x55, 0x04, 0x00, 0x00, 0x00, 0x00, 0xAA],
    [0x55, 0x03, 0x00, 0x00, 0x00, 0x00, 0x00],
];

/// Battery / status query used between sweep probes.
pub const BATTERY_QUERY: [u8; 7] = [0x55, 0x02, 0x00, 0x00, 0x00, 0x00, 0xFC];

/// One of the two Kaotik service ids.
pub open spec fn is_kaotik_service(u: u128) -> bool {
    u == KAOTIK_ADV_SERVICE || u == KAOTIK_CTRL_SERVICE
}

/// Extra scan score when Kaotik GATT services appear in advertisements:
/// 70 when one of the services is a Kaotik service, else 0.
pub fn kaotik_scan_bonus(services: &[u128]) -> (bonus: i32)
    ensures
        bonus == if exists|i: int| 0 <= i < services@.len() && is_kaotik_service(
            #[trigger] services@[i],
        ) {
            70i32
        } else {
            0i32
        },
{
    let mut i: usize = 0;
    while i < services.len()
        invariant
            i <= services.len(),
            forall|k: int| 0 <= k < i ==> !is_kaotik_service(#[trigger] services@[k]),
        decreases services.len() - i,
    {
        let u = services[i];
        if u == KAOTIK_ADV_SERVICE || u == KAOTIK_CTRL_SERVICE {
            assert(is_kaotik_service(services@[i as int]));
            return 70;
        }
        i = i + 1;
    }
    0
}

/// Body of a boost frame at a given scale.
pub open spec fn boost_body(scale: u8) -> Seq<u8> {
    seq![0x55u8, 0x04u8, 0x00u8, 0x00u8, 0x00u8, scale]
}

/// Body of an opcode-0x08 frame (direct stretch, stop, M-mode presets).
pub open spec fn op08_body(p1: u8, a: u8, b: u8) -> Seq<u8> {
    seq![0x55u8, 0x08u8, 0x00u8, p1, a, b]
}

/// The labelled candidate frames of `uart_burst_candidates`, in order.
pub open spec fn uart_burst_plan() -> Seq<(Seq<char>, Seq<u8>)> {
    seq![
        ("boost_00"@, aa_frame(boost_body(0x00))),
        ("boost_20"@, aa_frame(boost_body(0x20))),
        ("boost_40"@, aa_frame(boost_body(0x40))),
        ("boost_80"@, aa_frame(boost_body(0x80))),
        ("boost_FF"@, aa_frame(boost_body(0xFF))),
        ("stretch_l1"@, crc_frame(op08_body(0x00, 0x01, 0x01))),
        ("stretch_stop"@, crc_frame(op08_body(0x01, 0x00, 0x00))),
        ("m1_t1"@, crc_frame(op08_body(0x03, 0x01, 0x01))),
        ("m1_t5"@, crc_frame(op08_body(0x03, 0x01, 0x05))),
        ("m2_t5"@, crc_frame(op08_body(0x03, 0x02, 0x05))),
        ("m3_t3"@, crc_frame(op08_body(0x03, 0x03, 0x03))),
        ("m4_t5"@, crc_frame(op08_body(0x03, 0x04, 0x05))),
        ("m5_t5"@, crc_frame(op08_body(0x03, 0x05, 0x05))),
        ("m6_t5"@, crc_frame(op08_body(0x03, 0x06, 0x05))),
        ("m7_t5"@, crc_frame(op08_body(0x03, 0x07, 0x05))),
        ("m8_t5"@, crc_frame(op08_body(0x03, 0x08, 0x05))),
        ("legacy_vibe"@, crc_frame(seq![0x55u8, 0x03u8, 0x00u8, 0x00u8, 0x01u8, 0x01u8])),
        ("battery_query"@, crc_frame(seq![0x55u8, 0x02u8, 0x00u8, 0x00u8, 0x00u8, 0x00u8])),
    ]
}

/// The text and bytes of a labelled frame.
pub open spec fn labelled_view(e: (&'static str, Vec<u8>)) -> (Seq<char>, Seq<u8>) {
    (e.0@, e.1@)
}

fn aa_entry(label: &'static str, body: [u8; 6]) -> (e: (&'static str, Vec<u8>))
    ensures
        e.0 == label,
        e.1@ == aa_frame(body@),
{
    let frame = frame_with_aa(body);
    (label, vstd::slice::slice_to_vec(frame.as_slice()))
}

fn crc_entry(label: &'static str, body: [u8; 6]) -> (e: (&'static str, Vec<u8>))
    ensures
        e.0 == label,
        e.1@ == crc_frame(body@),
{
    let frame = frame_with_crc(body);
    (label, vstd::slice::slice_to_vec(frame.as_slice()))
}

/// Boost scale sweep + stretch/M-mode CRC candidates for FFE1 motor probing.
pub fn uart_burst_candidates() -> (frames: Vec<(&'static str, Vec<u8>)>)
    ensures
        frames@.map_values(|e: (&'static str, Vec<u8>)| labelled_view(e)) == uart_burst_plan(),
{
    let mut frames: Vec<(&'static str, Vec<u8>)> = Vec::new();
    frames.push(aa_entry("boost_00", [0x55, 0x04, 0x00, 0x00, 0x00, 0x00]));
    frames.push(aa_entry("boost_20", [0x55, 0x04, 0x00, 0x00, 0x00, 0x20]));
    frames.push(aa_entry("boost_40", [0x55, 0x04, 0x00, 0x00, 0x00, 0x40]));
    frames.push(aa_entry("boost_80", [0x55, 0x04, 0x00, 0x00, 0x00, 0x80]));
    frames.push(aa_entry("boost_FF", [0x55, 0x04, 0x00, 0x00, 0x00, 0xFF]));
    frames.push(crc_entry("stretch_l1", [0x55, 0x08, 0x00, 0x00, 0x01, 0x01]));
    frames.push(crc_entry("stretch_stop", [0x55, 0x08, 0x00, 0x01, 0x00, 0x00]));
    frames.push(crc_entry("m1_t1", [0x55, 0x08, 0x00, 0x03, 0x01, 0x01]));
    frames.push(crc_entry("m1_t5", [0x55, 0x08, 0x00, 0x03, 0x01, 0x05]));
    frames.push(crc_entry("m2_t5", [0x55, 0x08, 0x00, 0x03, 0x02, 0x05]));
    frames.push(crc_entry("m3_t3", [0x55, 0x08, 0x00, 0x03, 0x03, 0x03]));
    frames.push(crc_entry("m4_t5", [0x55, 0x08, 0x00, 0x03, 0x04, 0x05]));
    frames.push(crc_entry("m5_t5", [0x55, 0x08, 0x00, 0x03, 0x05, 0x05]));
    frames.push(crc_entry("m6_t5", [0x55, 0x08, 0x00, 0x03, 0x06, 0x05]));
    frames.push(crc_entry("m7_t5", [0x55, 0x08, 0x00, 0x03, 0x07, 0x05]));
    frames.push(crc_entry("m8_t5", [0x55, 0x08, 0x00, 0x03, 0x08, 0x05]));
    frames.push(crc_entry("legacy_vibe", [0x55, 0x03, 0x00, 0x00, 0x01, 0x01]));
    frames.push(crc_entry("battery_query", [0x55, 0x02, 0x00, 0x00, 0x00, 0x00]));
    assert(frames@.map_values(|e: (&'static str, Vec<u8>)| labelled_view(e)) =~= uart_burst_plan());
    frames
}


/// The frame of burst candidate `i` is a UART frame: the five boost frames
/// end in `0xAA`, the other thirteen carry a valid check byte.
pub open spec fn burst_frame_ok(i: int, f: Seq<u8>) -> bool {
    &&& is_uart_frame(f)
    &&& i < 5 ==> f[6] == AA_TAIL
    &&& i >= 5 ==> crc_checks(f)
}

#[verifier::spinoff_prover]
#[verifier::rlimit(40)]
proof fn lemma_burst_entry(i: int)
    requires
        0 <= i < 18,
    ensures
        burst_frame_ok(i, uart_burst_plan()[i].1),
{
    if i == 0 {
        lemma_frames_well_formed(boost_body(0x00));
    } else if i == 1 {
        lemma_frames_well_formed(boost_body(0x20));
    } else if i == 2 {
        lemma_frames_well_formed(boost_body(0x40));
    } else if i == 3 {
        lemma_frames_well_formed(boost_body(0x80));
    } else if i == 4 {
        lemma_frames_well_formed(boost_body(0xFF));
    } else if i == 5 {
        lemma_frames_well_formed(op08_body(0x00, 0x01, 0x01));
    } else if i == 6 {
        lemma_frames_well_formed(op08_body(0x01, 0x00, 0x00));
    } else if i == 7 {
        lemma_frames_well_formed(op08_body(0x03, 0x01, 0x01));
    } else if i == 8 {
        lemma_frames_well_formed(op08_body(0x03, 0x01, 0x05));
    } else if i == 9 {
        lemma_frames_well_formed(op08_body(0x03, 0x02, 0x05));
    } else if i == 10 {
        lemma_frames_well_formed(op08_body(0x03, 0x03, 0x03));
    } else if i == 11 {
        lemma_frames_well_formed(op08_body(0x03, 0x04, 0x05));
    } else if i == 12 {
        lemma_frames_well_formed(op08_body(0x03, 0x05, 0x05));
    } else if i == 13 {
        lemma_frames_well_formed(op08_body(0x03, 0x06, 0x05));
    } else if i == 14 {
        lemma_frames_well_formed(op08_body(0x03, 0x07, 0x05));
    } else if i == 15 {
        lemma_frames_well_formed(op08_body(0x03, 0x08, 0x05));
    } else if i == 16 {
        lemma_frames_well_formed(seq![0x55u8, 0x03u8, 0x00u8, 0x00u8, 0x01u8, 0x01u8]);
    } else if i == 17 {
        lemma_frames_well_formed(seq![0x55u8, 0x02u8, 0x00u8, 0x00u8, 0x00u8, 0x00u8]);
    }
}

/// Every burst candidate is a UART frame; the five boost frames end in
/// `0xAA` and the other thirteen carry a valid check byte.
pub proof fn lemma_burst_plan_frames()
    ensures
        uart_burst_plan().len() == 18,
        forall|i: int| 0 <= i < 18 ==> burst_frame_ok(i, #[trigger] uart_burst_plan()[i].1),
{
    assert forall|i: int| 0 <= i < 18 implies burst_frame_ok(i, #[trigger] uart_burst_plan()[i].1) by {
        lemma_burst_entry(i);
    }
}

/// The five boost candidates, entry by entry: `55 04 00 00 00 XX AA` for
/// XX = 00, 20, 40, 80, FF in that order, labelled `boost_XX`.
pub proof fn lemma_burst_boost_values()
    ensures
        uart_burst_plan().len() == 18,
        uart_burst_plan()[0] == ("boost_00"@, seq![0x55u8, 0x04u8, 0x00u8, 0x00u8, 0x00u8, 0x00u8, 0xAAu8]),
        uart_burst_plan()[1] == ("boost_20"@, seq![0x55u8, 0x04u8, 0x00u8, 0x00u8, 0x00u8, 0x20u8, 0xAAu8]),
        uart_burst_plan()[2] == ("boost_40"@, seq![0x55u8, 0x04u8, 0x00u8, 0x00u8, 0x00u8, 0x40u8, 0xAAu8]),
        uart_burst_plan()[3] == ("boost_80"@, seq![0x55u8, 0x04u8, 0x00u8, 0x00u8, 0x00u8, 0x80u8, 0xAAu8]),
        uart_burst_plan()[4] == ("boost_FF"@, seq![0x55u8, 0x04u8, 0x00u8, 0x00u8, 0x00u8, 0xFFu8, 0xAAu8]),
{
    assert(uart_burst_plan()[0].1 =~= seq![0x55u8, 0x04u8, 0x00u8, 0x00u8, 0x00u8, 0x00u8, 0xAAu8]);
    assert(uart_burst_plan()[1].1 =~= seq![0x55u8, 0x04u8, 0x00u8, 0x00u8, 0x00u8, 0x20u8, 0xAAu8]);
    assert(uart_burst_plan()[2].1 =~= seq![0x55u8, 0x04u8, 0x00u8, 0x00u8, 0x00u8, 0x40u8, 0xAAu8]);
    assert(uart_burst_plan()[3].1 =~= seq![0x55u8, 0x04u8, 0x00u8, 0x00u8, 0x00u8, 0x80u8, 0xAAu8]);
    assert(uart_burst_plan()[4].1 =~= seq![0x55u8, 0x04u8, 0x00u8, 0x00u8, 0x00u8, 0xFFu8, 0xAAu8]);
}

/// The boost labels spell their scale bytes in two upper-case hex digits.
proof fn lemma_boost_label_text()
    ensures
        "boost_00"@ == "boost_"@ + crate::hex::hex2(0x00),
        "boost_20"@ == "boost_"@ + crate::hex::hex2(0x20),
        "boost_40"@ == "boost_"@ + crate::hex::hex2(0x40),
        "boost_80"@ == "boost_"@ + crate::hex::hex2(0x80),
        "boost_FF"@ == "boost_"@ + crate::hex::hex2(0xFF),
{
    reveal_strlit("boost_");
    reveal_strlit("boost_00");
    reveal_strlit("boost_20");
    reveal_strlit("boost_40");
    reveal_strlit("boost_80");
    reveal_strlit("boost_FF");
    assert("boost_00"@ =~= "boost_"@ + crate::hex::hex2(0x00));
    assert("boost_20"@ =~= "boost_"@ + crate::hex::hex2(0x20));
    assert("boost_40"@ =~= "boost_"@ + crate::hex::hex2(0x40));
    assert("boost_80"@ =~= "boost_"@ + crate::hex::hex2(0x80));
    assert("boost_FF"@ =~= "boost_"@ + crate::hex::hex2(0xFF));
}

/// Each boost candidate's label names the scale byte its frame carries:
/// `boost_` followed by that byte in two upper-case hex digits.
pub proof fn lemma_burst_boost_labels()
    ensures
        forall|i: int| 0 <= i < 5 ==> (#[trigger] uart_burst_plan()[i]).0 == "boost_"@ + crate::hex::hex2(uart_burst_plan()[i].1[5]),
{
    lemma_burst_boost_values();
    lemma_boost_label_text();
    assert forall|i: int| 0 <= i < 5 implies (#[trigger] uart_burst_plan()[i]).0 == "boost_"@ + crate::hex::hex2(uart_burst_plan()[i].1[5]) by {
        if i == 0 {
        } else if i == 1 {
        } else if i == 2 {
        } else if i == 3 {
        } else {
        }
    }
}

/// The CRC candidates `stretch_l1` through `m4_t5`, entry by entry:
/// the body each label names, followed by its check byte (whose values
/// `crc::lemma_confirmed_check_bytes` and `crc::lemma_candidate_check_bytes`
/// give).
pub proof fn lemma_burst_crc_values_a()
    ensures
        uart_burst_plan()[5] == ("stretch_l1"@, seq![0x55u8, 0x08u8, 0x00u8, 0x00u8, 0x01u8, 0x01u8].push(crc8(seq![0x55u8, 0x08u8, 0x00u8, 0x00u8, 0x01u8, 0x01u8]))),
        uart_burst_plan()[6] == ("stretch_stop"@, seq![0x55u8, 0x08u8, 0x00u8, 0x01u8, 0x00u8, 0x00u8].push(crc8(seq![0x55u8, 0x08u8, 0x00u8, 0x01u8, 0x00u8, 0x00u8]))),
        uart_burst_plan()[7] == ("m1_t1"@, seq![0x55u8, 0x08u8, 0x00u8, 0x03u8, 0x01u8, 0x01u8].push(crc8(seq![0x55u8, 0x08u8, 0x00u8, 0x03u8, 0x01u8, 0x01u8]))),
        uart_burst_plan()[8] == ("m1_t5"@, seq![0x55u8, 0x08u8, 0x00u8, 0x03u8, 0x01u8, 0x05u8].push(crc8(seq![0x55u8, 0x08u8, 0x00u8, 0x03u8, 0x01u8, 0x05u8]))),
        uart_burst_plan()[9] == ("m2_t5"@, seq![0x55u8, 0x08u8, 0x00u8, 0x03u8, 0x02u8, 0x05u8].push(crc8(seq![0x55u8, 0x08u8, 0x00u8, 0x03u8, 0x02u8, 0x05u8]))),
        uart_burst_plan()[10] == ("m3_t3"@, seq![0x55u8, 0x08u8, 0x00u8, 0x03u8, 0x03u8, 0x03u8].push(crc8(seq![0x55u8, 0x08u8, 0x00u8, 0x03u8, 0x03u8, 0x03u8]))),
        uart_burst_plan()[11] == ("m4_t5"@, seq![0x55u8, 0x08u8, 0x00u8, 0x03u8, 0x04u8, 0x05u8].push(crc8(seq![0x55u8, 0x08u8, 0x00u8, 0x03u8, 0x04u8, 0x05u8]))),
{
    assert(uart_burst_plan()[5].1 =~= seq![0x55u8, 0x08u8, 0x00u8, 0x00u8, 0x01u8, 0x01u8].push(crc8(seq![0x55u8, 0x08u8, 0x00u8, 0x00u8, 0x01u8, 0x01u8])));
    assert(uart_burst_plan()[6].1 =~= seq![0x55u8, 0x08u8, 0x00u8, 0x01u8, 0x00u8, 0x00u8].push(crc8(seq![0x55u8, 0x08u8, 0x00u8, 0x01u8, 0x00u8, 0x00u8])));
    assert(uart_burst_plan()[7].1 =~= seq![0x55u8, 0x08u8, 0x00u8, 0x03u8, 0x01u8, 0x01u8].push(crc8(seq![0x55u8, 0x08u8, 0x00u8, 0x03u8, 0x01u8, 0x01u8])));
    assert(uart_burst_plan()[8].1 =~= seq![0x55u8, 0x08u8, 0x00u8, 0x03u8, 0x01u8, 0x05u8].push(crc8(seq![0x55u8, 0x08u8, 0x00u8, 0x03u8, 0x01u8, 0x05u8])));
    assert(uart_burst_plan()[9].1 =~= seq![0x55u8, 0x08u8, 0x00u8, 0x03u8, 0x02u8, 0x05u8].push(crc8(seq![0x55u8, 0x08u8, 0x00u8, 0x03u8, 0x02u8, 0x05u8])));
    assert(uart_burst_plan()[10].1 =~= seq![0x55u8, 0x08u8, 0x00u8, 0x03u8, 0x03u8, 0x03u8].push(crc8(seq![0x55u8, 0x08u8, 0x00u8, 0x03u8, 0x03u8, 0x03u8])));
    assert(uart_burst_plan()[11].1 =~= seq![0x55u8, 0x08u8, 0x00u8, 0x03u8, 0x04u8, 0x05u8].push(crc8(seq![0x55u8, 0x08u8, 0x00u8, 0x03u8, 0x04u8, 0x05u8])));
}

/// The CRC candidates `m5_t5` through `battery_query`, entry by entry:
/// the body each label names, followed by its check byte (whose values
/// `crc::lemma_confirmed_check_bytes` and `crc::lemma_candidate_check_bytes`
/// give).
pub proof fn lemma_burst_crc_values_b()
    ensures
        uart_burst_plan()[12] == ("m5_t5"@, seq![0x55u8, 0x08u8, 0x00u8, 0x03u8, 0x05u8, 0x05u8].push(crc8(seq![0x55u8, 0x08u8, 0x00u8, 0x03u8, 0x05u8, 0x05u8]))),
        uart_burst_plan()[13] == ("m6_t5"@, seq![0x55u8, 0x08u8, 0x00u8, 0x03u8, 0x06u8, 0x05u8].push(crc8(seq![0x55u8, 0x08u8, 0x00u8, 0x03u8, 0x06u8, 0x05u8]))),
        uart_burst_plan()[14] == ("m7_t5"@, seq![0x55u8, 0x08u8, 0x00u8, 0x03u8, 0x07u8, 0x05u8].push(crc8(seq![0x55u8, 0x08u8, 0x00u8, 0x03u8, 0x07u8, 0x05u8]))),
        uart_burst_plan()[15] == ("m8_t5"@, seq![0x55u8, 0x08u8, 0x00u8, 0x03u8, 0x08u8, 0x05u8].push(crc8(seq![0x55u8, 0x08u8, 0x00u8, 0x03u8, 0x08u8, 0x05u8]))),
        uart_burst_plan()[16] == ("legacy_vibe"@, seq![0x55u8, 0x03u8, 0x00u8, 0x00u8, 0x01u8, 0x01u8].push(crc8(seq![0x55u8, 0x03u8, 0x00u8, 0x00u8, 0x01u8, 0x01u8]))),
        uart_burst_plan()[17] == ("battery_query"@, seq![0x55u8, 0x02u8, 0x00u8, 0x00u8, 0x00u8, 0x00u8].push(crc8(seq![0x55u8, 0x02u8, 0x00u8, 0x00u8, 0x00u8, 0x00u8]))),
{
    assert(uart_burst_plan()[12].1 =~= seq![0x55u8, 0x08u8, 0x00u8, 0x03u8, 0x05u8, 0x05u8].push(crc8(seq![0x55u8, 0x08u8, 0x00u8, 0x03u8, 0x05u8, 0x05u8])));
    assert(uart_burst_plan()[13].1 =~= seq![0x55u8, 0x08u8, 0x00u8, 0x03u8, 0x06u8, 0x05u8].push(crc8(seq![0x55u8, 0x08u8, 0x00u8, 0x03u8, 0x06u8, 0x05u8])));
    assert(uart_burst_plan()[14].1 =~= seq![0x55u8, 0x08u8, 0x00u8, 0x03u8, 0x07u8, 0x05u8].push(crc8(seq![0x55u8, 0x08u8, 0x00u8, 0x03u8, 0x07u8, 0x05u8])));
    assert(uart_burst_plan()[15].1 =~= seq![0x55u8, 0x08u8, 0x00u8, 0x03u8, 0x08u8, 0x05u8].push(crc8(seq![0x55u8, 0x08u8, 0x00u8, 0x03u8, 0x08u8, 0x05u8])));
    assert(uart_burst_plan()[16].1 =~= seq![0x55u8, 0x03u8, 0x00u8, 0x00u8, 0x01u8, 0x01u8].push(crc8(seq![0x55u8, 0x03u8, 0x00u8, 0x00u8, 0x01u8, 0x01u8])));
    assert(uart_burst_plan()[17].1 =~= seq![0x55u8, 0x02u8, 0x00u8, 0x00u8, 0x00u8, 0x00u8].push(crc8(seq![0x55u8, 0x02u8, 0x00u8, 0x00u8, 0x00u8, 0x00u8])));
}

/// The battery query is the CRC frame of its body `55 02 00 00 00 00`, and
/// the last burst candidate sends exactly it.
pub proof fn lemma_battery_query_is_crc_frame()
    ensures
        BATTERY_QUERY@ == crc_frame(seq![0x55u8, 0x02u8, 0x00u8, 0x00u8, 0x00u8, 0x00u8]),
        uart_burst_plan()[17].1 == BATTERY_QUERY@,
{
    assert(crc8(seq![0x55u8, 0x02u8, 0x00u8, 0x00u8, 0x00u8, 0x00u8]) == 0xFCu8) by {
        crate::crc::lemma_confirmed_check_bytes();
    }
    assert(BATTERY_QUERY@ =~= crc_frame(seq![0x55u8, 0x02u8, 0x00u8, 0x00u8, 0x00u8, 0x00u8]));
    lemma_burst_crc_values_b();
}

} // verus!
