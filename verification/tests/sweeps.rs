use jetpack_hack::ble_sweep::{
    aa_tail_plan, burst_candidates, grid_row, is_aa_tail_hit, is_echo, is_nack, is_zero_tail_hit,
    zero_tail_plan, Row as GridRow,
};
use jetpack_hack::jetpack_sweep::{format_sweep, is_hit, probe_row, status_text, sweep_plan, Row};

#[test]
fn jetpack_sweep_plan_order() {
    let plan = sweep_plan();
    assert_eq!(plan.len(), 86);
    assert_eq!(plan[0].0, "boost_00");
    assert_eq!(plan[4].0, "boost_CC");
    assert_eq!(plan[4].1, vec![0x55, 0x04, 0x00, 0x00, 0x00, 0xCC, 0xAA]);
    assert_eq!(plan[6].0, "crc_p1_00_m1_t1");
    assert_eq!(plan[6].1, vec![0x55, 0x08, 0x00, 0x00, 0x01, 0x01, 0xFC]);
    assert_eq!(plan[7].0, "crc_p1_00_m1_t2");
    assert_eq!(plan[46].0, "crc_p1_03_m1_t1");
    assert_eq!(plan[85].0, "crc_p1_03_m8_t5");
    assert_eq!(plan[85].1, vec![0x55, 0x08, 0x00, 0x03, 0x08, 0x05, 0xFE]);
}

#[test]
fn jetpack_sweep_rows_and_hits() {
    let row = probe_row(
        "boost_40",
        &[0x55, 0x04, 0x00, 0x00, 0x00, 0x40, 0xAA],
        &Some(vec![0x55, 0x04, 0x01]),
        "55 02 10 01 00 00 00".to_string(),
        "55 02 10 01 00 00 00".to_string(),
    );
    assert_eq!(row.sent, "55 04 00 00 00 40 AA");
    assert_eq!(row.response, "55 04 01");
    assert!(!row.status_delta);
    assert!(is_hit(&row));

    let silent = probe_row("x", &[1], &None, "a".to_string(), "b".to_string());
    assert_eq!(silent.response, "(silent)");
    assert!(silent.status_delta);
    assert!(!is_hit(&silent));

    let nack = probe_row("y", &[1], &Some(vec![0x55, 0xFF, 0x01]), String::new(), String::new());
    assert!(!is_hit(&nack));

    assert_eq!(status_text(&None), "(none)");
    assert_eq!(status_text(&Some(vec![0x55, 0x02])), "55 02");
}

#[test]
fn jetpack_sweep_report() {
    let rows = vec![Row {
        label: "boost_00".to_string(),
        sent: "55 04".to_string(),
        response: "(silent)".to_string(),
        status_before: "(none)".to_string(),
        status_after: "55 02".to_string(),
        status_delta: true,
    }];
    assert_eq!(
        format_sweep("dev-1", &rows),
        "# Jetpack Sweep Results\n\n- Device: `dev-1`\n\n\
         | label | sent | response | status_before | status_after | delta |\n\
         | ----- | ---- | -------- | ------------- | ------------ | ----- |\n\
         | boost_00 | `55 04` | `(silent)` | `(none)` | `55 02` | true |\n"
    );
}

#[test]
fn grid_plans_order() {
    let zero = zero_tail_plan();
    assert_eq!(zero.len(), 350);
    assert_eq!(zero[0].0, "op_03_m1_i1");
    assert_eq!(zero[0].1, vec![0x55, 0x03, 0x00, 0x00, 0x01, 0x01, 0x00]);
    assert_eq!(zero[1].0, "op_03_m1_i2");
    assert_eq!(zero[349].0, "op_10_m5_i5");
    assert_eq!(zero[349].1, vec![0x55, 0x10, 0x00, 0x00, 0x05, 0x05, 0x00]);

    let aa = aa_tail_plan();
    assert_eq!(aa.len(), 84);
    assert_eq!(aa[0].0, "aa_op_03_01_01");
    assert_eq!(aa[2].0, "aa_op_03_01_FF");
    assert_eq!(aa[3].0, "aa_op_03_05_01");
    assert_eq!(aa[83].0, "aa_op_10_05_FF");
    assert_eq!(aa[83].1, vec![0x55, 0x10, 0x00, 0x00, 0x05, 0xFF, 0xAA]);
}

#[test]
fn grid_reply_classes() {
    let frame = [0x55, 0x05, 0x00, 0x00, 0x01, 0x01, 0x00];
    assert!(is_echo(&frame, &Some(frame.to_vec())));
    assert!(!is_echo(&frame, &None));
    assert!(!is_echo(&frame, &Some(vec![0x55])));
    assert!(is_nack("55 FF 01 00"));
    assert!(!is_nack("55 FF 02"));
    assert!(!is_zero_tail_hit(&frame, &Some(frame.to_vec())));
    assert!(!is_zero_tail_hit(&frame, &None));
    assert!(!is_zero_tail_hit(&frame, &Some(vec![0x55, 0xFF, 0x01])));
    assert!(is_zero_tail_hit(&frame, &Some(vec![0x55, 0x05, 0x01])));

    let row = grid_row("aa_op_04_01_01", &[0x55, 0x04], &Some(vec![0x55, 0xFF, 0x01]));
    assert_eq!(row.response, "55 FF 01");
    assert!(!is_aa_tail_hit(&row));
    let row = grid_row("aa_op_04_01_05", &[0x55, 0x04], &Some(vec![0x55, 0x04]));
    assert!(is_aa_tail_hit(&row));
}

#[test]
fn burst_takes_first_ten_answering_rows() {
    let mut rows: Vec<GridRow> = Vec::new();
    rows.push(grid_row("silent", &[0x55, 0x01], &None));
    rows.push(grid_row("echo", &[0x55, 0x02], &Some(vec![0x55, 0x02])));
    for i in 0..12u8 {
        rows.push(grid_row(&format!("hit{i}"), &[0x55, i], &Some(vec![0x55, 0xEE])));
    }
    let chosen = burst_candidates(&rows);
    assert_eq!(chosen.len(), 10);
    assert_eq!(chosen[0].0, "hit0");
    assert_eq!(chosen[0].1, Some(vec![0x55, 0x00]));
    assert_eq!(chosen[9].0, "hit9");
    assert_eq!(chosen[9].1, Some(vec![0x55, 0x09]));

    let odd = vec![GridRow {
        label: "odd".to_string(),
        sent: "not hex".to_string(),
        response: "55".to_string(),
    }];
    assert_eq!(burst_candidates(&odd), vec![("odd".to_string(), None)]);
}
