use jetpack_hack::ble_sweep::{
    aa_tail_plan, burst_candidates, grid_row, is_nack, is_zero_tail_hit, zero_tail_plan,
};
use jetpack_hack::crc::crc8_of;
use jetpack_hack::hex::{parse_spaced_hex, spaced_hex};
use jetpack_hack::jetpack_probe::classify_reply;
use jetpack_hack::jetpack_protocol::uart_burst_candidates;
use jetpack_hack::jetpack_sweep::{is_hit, probe_row, sweep_plan};
use jetpack_hack::text::text_contains;

fn holds(bytes: &[u8], pattern: &[u8]) -> bool {
    bytes.windows(pattern.len()).any(|w| w == pattern)
}

fn samples() -> Vec<Vec<u8>> {
    vec![
        vec![],
        vec![0x55],
        vec![0x55, 0xFF],
        vec![0x55, 0xFF, 0x01],
        vec![0xA5, 0x5F, 0xF0, 0x10],
        vec![0x05, 0x5F, 0xF0, 0x15],
        vec![0x00, 0x55, 0xFF, 0x01, 0x00],
        vec![0x55, 0x02, 0x10, 0x01, 0x00, 0x00, 0x00],
        (0..=255u8).collect(),
    ]
}

#[test]
fn spaced_hex_reads_back_for_all_bytes() {
    for b in samples() {
        assert_eq!(parse_spaced_hex(&spaced_hex(&b)), Some(b.clone()));
    }
}

#[test]
fn text_search_on_dumps_is_byte_search() {
    let patterns: Vec<Vec<u8>> = vec![vec![0x55], vec![0x55, 0xFF], vec![0x5F, 0xF0], vec![0xFF, 0x01]];
    for b in samples() {
        for p in &patterns {
            assert_eq!(text_contains(&spaced_hex(&b), &spaced_hex(p)), holds(&b, p), "{:?} {:?}", b, p);
        }
    }
}

#[test]
fn nack_and_hit_tests_are_byte_tests() {
    for b in samples() {
        assert_eq!(is_nack(&spaced_hex(&b)), holds(&b, &[0x55, 0xFF, 0x01]));
        let row = probe_row("x", &[0x55], &Some(b.clone()), String::new(), String::new());
        assert_eq!(is_hit(&row), !holds(&b, &[0x55, 0xFF]));
    }
    let silent = probe_row("x", &[0x55], &None, String::new(), String::new());
    assert!(!is_hit(&silent));
}

#[test]
fn every_planned_frame_is_a_uart_frame() {
    let crc_ok = |f: &Vec<u8>| f[6] == crc8_of(&f[..6]);
    for (i, (_, f)) in uart_burst_candidates().iter().enumerate() {
        assert_eq!(f.len(), 7);
        assert_eq!(f[0], 0x55);
        if i < 5 {
            assert_eq!(f[6], 0xAA);
        } else {
            assert!(crc_ok(f));
        }
    }
    for (k, (_, f)) in sweep_plan().iter().enumerate() {
        assert_eq!(f.len(), 7);
        assert_eq!(f[0], 0x55);
        if k < 6 {
            assert_eq!(f[6], 0xAA);
        } else {
            assert!(crc_ok(f));
        }
    }
    for (_, f) in zero_tail_plan() {
        assert_eq!((f.len(), f[0], f[6]), (7, 0x55, 0x00));
    }
    for (_, f) in aa_tail_plan() {
        assert_eq!((f.len(), f[0], f[6]), (7, 0x55, 0xAA));
    }
}

#[test]
fn bursts_send_the_recorded_frames() {
    let plan = zero_tail_plan();
    let rows: Vec<_> = plan
        .iter()
        .enumerate()
        .map(|(k, (label, frame))| {
            let reply = if k % 7 == 3 { Some(vec![0x55, 0xA0, k as u8]) } else { None };
            grid_row(label, frame, &reply)
        })
        .collect();
    let chosen = burst_candidates(&rows);
    assert_eq!(chosen.len(), 10);
    for (n, (label, bytes)) in chosen.iter().enumerate() {
        let k = 7 * n + 3;
        assert_eq!(label, &plan[k].0);
        assert_eq!(bytes.as_ref(), Some(&plan[k].1));
    }
}

#[test]
fn echoes_are_never_hits() {
    for (_, frame) in zero_tail_plan().iter().take(20) {
        assert!(!is_zero_tail_hit(frame, &Some(frame.clone())));
        assert_eq!(classify_reply(frame, &Some(frame.clone())), "echo");
    }
    assert_eq!(classify_reply(&[0x55], &None), "silent");
    assert_eq!(classify_reply(&[0x55], &Some(vec![0x56])), "non-standard");
}
