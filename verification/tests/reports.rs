use jetpack_hack::ble_run::{
    after_probe, cargo_run_args, discover_scan_args, format_scan_md, probe_args, verify_has_success,
    ProbeOutcome, RunOptions, ScannedDevice,
};
use jetpack_hack::cli::{arg_value, arg_value_or, has_flag, parse_unsigned};
use jetpack_hack::jetpack_probe::{
    burst_row, format_results, idle_notify_row, interesting_rows, read_row, ProbeRow,
};

fn args(list: &[&str]) -> Vec<String> {
    list.iter().map(|s| s.to_string()).collect()
}

#[test]
fn arg_lookup() {
    let a = args(&["prog", "--device", "ABC", "--output", "x.md", "--device", "DEF"]);
    assert_eq!(arg_value(&a, "--device"), Some("ABC".to_string()));
    assert_eq!(arg_value(&a, "--missing"), None);
    assert_eq!(arg_value(&args(&["prog", "--device"]), "--device"), None);
    assert_eq!(arg_value_or(&a, "--output", "test_results.md"), "x.md");
    assert_eq!(arg_value_or(&a, "--out", "test_results.md"), "test_results.md");
    assert!(has_flag(&args(&["p", "--handshake"]), "--handshake"));
    assert!(!has_flag(&args(&["p", "--hand"]), "--handshake"));
}

#[test]
fn unsigned_numbers_like_str_parse() {
    assert_eq!(parse_unsigned("5", u32::MAX as u64), Some(5));
    assert_eq!(parse_unsigned("+12", u32::MAX as u64), Some(12));
    assert_eq!(parse_unsigned("4294967295", u32::MAX as u64), Some(4294967295));
    assert_eq!(parse_unsigned("4294967296", u32::MAX as u64), None);
    assert_eq!(parse_unsigned("18446744073709551615", u64::MAX), Some(u64::MAX));
    assert_eq!(parse_unsigned("18446744073709551616", u64::MAX), None);
    assert_eq!(parse_unsigned("", 10), None);
    assert_eq!(parse_unsigned("-1", 10), None);
    assert_eq!(parse_unsigned("1a", 100), None);
}

#[test]
fn run_options_from_args() {
    let o = RunOptions::from_args(&args(&[
        "ble_run", "--brand", "Kaotik", "--max-iter", "3", "--seconds", "oops", "--skip-verify",
    ]));
    assert_eq!(o.brand, Some("Kaotik".to_string()));
    assert_eq!(o.product, None);
    assert_eq!(o.workdir, ".");
    assert_eq!(o.max_iters, 3);
    assert_eq!(o.scan_seconds, 5);
    assert!(o.skip_verify);
    assert!(!o.discover);
    assert!(o.require_name());
    let d = RunOptions::from_args(&args(&["ble_run"]));
    assert!(!d.require_name());
    assert_eq!(d.max_iters, 5);
}

#[test]
fn probe_gate_steps() {
    assert!(matches!(after_probe(1, 5, true), ProbeOutcome::Proceed));
    assert!(matches!(after_probe(2, 5, false), ProbeOutcome::Retry));
    assert!(matches!(after_probe(5, 5, false), ProbeOutcome::GiveUp));
}

#[test]
fn verify_success_detection() {
    // a bold verdict cell is not a bare `| success |` cell
    assert!(!verify_has_success("| m1 | x | `55` | e | **success** |"));
    assert!(verify_has_success("| m1 | x | `55` | e | success |\n"));
    assert!(verify_has_success("SUCCESS"));
    assert!(!verify_has_success("| m1 | x | `55` | e | fail |"));
}

#[test]
fn subcommand_arguments() {
    let a = cargo_run_args("ble_probe", &args(&["--device", "X"]));
    assert_eq!(a, args(&["run", "-p", "ble-hack-skill", "--bin", "ble_probe", "--", "--device", "X"]));
    let s = discover_scan_args(7, "scan.md", &None, &Some("Jetpack".to_string()));
    assert_eq!(s, args(&["--discover", "--seconds", "7", "--output", "scan.md", "--product", "Jetpack"]));
    assert_eq!(probe_args("D", "t.md"), args(&["--device", "D", "--auto", "--output", "t.md"]));
}

#[test]
fn scan_report() {
    let devices = vec![
        ScannedDevice {
            id: "3006".to_string(),
            local_name: Some("The Jetpack".to_string()),
            tier: "PRIMARY".to_string(),
            brand_match: true,
            rssi: Some(-61),
            score: 170,
        },
        ScannedDevice {
            id: "77".to_string(),
            local_name: None,
            tier: "NOISE".to_string(),
            brand_match: false,
            rssi: None,
            score: -5,
        },
    ];
    assert_eq!(
        format_scan_md(&devices, Some("Kaotik"), None),
        "# BLE Scan Results\n\n- Brand filter: `Kaotik`\n- Devices found: 2\n\n\
         | tier | device_id | name | brand_match | rssi | score |\n\
         | ---- | --------- | ---- | ----------- | ---- | ----- |\n\
         | PRIMARY | `3006` | The Jetpack | true | -61 | 170 |\n\
         | NOISE | `77` | — | false | — | -5 |\n"
    );
}

#[test]
fn probe_rows_and_report() {
    let idle = idle_notify_row("FFE1/FFE2", &[0x55, 0xA0]);
    assert_eq!(idle.label, "idle_notify");
    assert_eq!(idle.sent, "(listen)");
    assert_eq!(idle.response, "55 A0");
    let read = read_row("0000ffe1-0000-1000-8000-00805f9b34fb", "FFE1/FFE2", &[0x01]);
    assert_eq!(read.label, "read_0000ffe1-0000-1000-8000-00805f9b34fb");
    assert_eq!(read.sent, "(read)");
    let burst = burst_row("m1_t5", "FFE1/FFE2", &[0x55, 0x08], &None, "silent");
    assert_eq!(burst.response, "(no response)");
    assert_eq!(burst.sent, "55 08");
    let echo = burst_row("boost_00", "FFE1/FFE2", &[0x55], &Some(vec![0x55]), "echo");
    let rows: Vec<ProbeRow> = vec![idle, burst, echo];
    assert_eq!(interesting_rows(&rows), vec![0, 2]);
    assert_eq!(
        format_results("dev", &rows[..1]),
        "# Jetpack BLE Probe Results\n\n- Device: `dev`\n\n\
         | label | channel | sent | response | class |\n\
         | ----- | ------- | ---- | -------- | ----- |\n\
         | idle_notify | FFE1/FFE2 | `(listen)` | `55 A0` | non-standard |\n"
    );
}
