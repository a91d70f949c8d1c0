//! Decisions of the one-go scan -> probe -> verify pipeline: its options,
//! when to retry the probe, whether verification produced successes, and
//! the markdown scan report.

use vstd::prelude::*;
use crate::cli::{arg_value, first_flag_at, has_flag, has_flag_spec, parse_unsigned, parsed_unsigned};
use crate::hex::{decimal, push_decimal, push_signed, signed_decimal};
use crate::text::{bool_text, contains_text, push_bool, text_contains};

verus! {

/// Options of a pipeline run, read from the command line.
pub struct RunOptions {
    pub brand: Option<String>,
    pub product: Option<String>,
    pub workdir: String,
    pub max_iters: u32,
    pub scan_seconds: u64,
    pub skip_verify: bool,
    pub discover: bool,
}

/// The text after the first occurrence of `flag`, if any.
pub open spec fn flag_value(args: Seq<String>, flag: Seq<char>) -> Option<Seq<char>> {
    if exists|i: int| first_flag_at(args, flag, i) && i + 1 < args.len() {
        let i = choose|i: int| first_flag_at(args, flag, i) && i + 1 < args.len();
        Some(args[i + 1]@)
    } else {
        None
    }
}

/// The view of an optional text.
pub open spec fn opt_text(o: Option<String>) -> Option<Seq<char>> {
    match o {
        Some(s) => Some(s@),
        None => None,
    }
}

/// A number option: the value after `flag` read as an unsigned number up to
/// `max`, or `default` when it is missing or unreadable.
pub open spec fn number_option(args: Seq<String>, flag: Seq<char>, max: int, default: int) -> int {
    match flag_value(args, flag) {
        Some(t) => match parsed_unsigned(t, max) {
            Some(v) => v,
            None => default,
        },
        None => default,
    }
}

proof fn lemma_flag_value(args: Seq<String>, flag: Seq<char>, r: Option<String>)
    requires
        r is None <==> forall|i: int| first_flag_at(args, flag, i) ==> i + 1 >= args.len(),
        r matches Some(v) ==> forall|i: int| first_flag_at(args, flag, i) ==> v@ == args[i + 1]@,
    ensures
        opt_text(r) == flag_value(args, flag),
{
    if exists|i: int| first_flag_at(args, flag, i) && i + 1 < args.len() {
        let i = choose|i: int| first_flag_at(args, flag, i) && i + 1 < args.len();
        assert(!(forall|i: int| first_flag_at(args, flag, i) ==> i + 1 >= args.len()));
    }
}

fn flag_number(args: &[String], flag: &str, max: u64, default: u64) -> (v: u64)
    requires
        default <= max,
    ensures
        v == number_option(args@, flag@, max as int, default as int),
{
    let raw = arg_value(args, flag);
    proof {
        lemma_flag_value(args@, flag@, raw);
    }
    match raw {
        Some(text) => match parse_unsigned(text.as_str(), max) {
            Some(v) => v,
            None => default,
        },
        None => default,
    }
}

impl RunOptions {
    /// Reads `--brand`, `--product`, `--workdir` (default `.`), `--max-iter`
    /// (default 5), `--seconds` (default 5), `--skip-verify` and `--discover`.
    pub fn from_args(args: &[String]) -> (o: RunOptions)
        ensures
            opt_text(o.brand) == flag_value(args@, "--brand"@),
            opt_text(o.product) == flag_value(args@, "--product"@),
            o.workdir@ == match flag_value(args@, "--workdir"@) {
                Some(w) => w,
                None => "."@,
            },
            o.max_iters == number_option(args@, "--max-iter"@, u32::MAX as int, 5),
            o.scan_seconds == number_option(args@, "--seconds"@, u64::MAX as int, 5),
            o.skip_verify == has_flag_spec(args@, "--skip-verify"@),
            o.discover == has_flag_spec(args@, "--discover"@),
    {
        let brand = arg_value(args, "--brand");
        let product = arg_value(args, "--product");
        let workdir_arg = arg_value(args, "--workdir");
        proof {
            lemma_flag_value(args@, "--brand"@, brand);
            lemma_flag_value(args@, "--product"@, product);
            lemma_flag_value(args@, "--workdir"@, workdir_arg);
        }
        let workdir = match workdir_arg {
            Some(w) => w,
            None => String::from_str("."),
        };
        let max_iters = flag_number(args, "--max-iter", 0xFFFF_FFFF, 5) as u32;
        let scan_seconds = flag_number(args, "--seconds", 0xFFFF_FFFF_FFFF_FFFF, 5);
        RunOptions {
            brand,
            product,
            workdir,
            max_iters,
            scan_seconds,
            skip_verify: has_flag(args, "--skip-verify"),
            discover: has_flag(args, "--discover"),
        }
    }

    /// A brand or product filter was given, so the target must have a
    /// matching local name.
    pub fn require_name(&self) -> (r: bool)
        ensures
            r == (self.brand is Some || self.product is Some),
    {
        self.product.is_some() || self.brand.is_some()
    }
}

/// What the pipeline does after a probe round.
pub enum ProbeOutcome {
    /// The probe surfaced motor-channel replies: go on to verification.
    Proceed,
    /// No motor-channel reply yet and attempts remain: wait and scan again.
    Retry,
    /// No motor-channel reply on the last attempt: stop with an error.
    GiveUp,
}

/// The step after probe attempt `attempt` of `max_iters`.
pub fn after_probe(attempt: u32, max_iters: u32, gate_passed: bool) -> (o: ProbeOutcome)
    ensures
        gate_passed ==> o is Proceed,
        !gate_passed && attempt == max_iters ==> o is GiveUp,
        !gate_passed && attempt != max_iters ==> o is Retry,
{
    if gate_passed {
        ProbeOutcome::Proceed
    } else if attempt == max_iters {
        ProbeOutcome::GiveUp
    } else {
        ProbeOutcome::Retry
    }
}

/// The arguments of `cargo run -p ble-hack-skill --bin <bin> -- <extra..>`.
pub fn cargo_run_args(bin: &str, extra: &[String]) -> (args: Vec<String>)
    ensures
        args@.len() == 6 + extra@.len(),
        args@[0]@ == "run"@,
        args@[1]@ == "-p"@,
        args@[2]@ == "ble-hack-skill"@,
        args@[3]@ == "--bin"@,
        args@[4]@ == bin@,
        args@[5]@ == "--"@,
        forall|k: int| 0 <= k < extra@.len() ==> #[trigger] args@[6 + k]@ == extra@[k]@,
{
    let mut args: Vec<String> = Vec::new();
    args.push(String::from_str("run"));
    args.push(String::from_str("-p"));
    args.push(String::from_str("ble-hack-skill"));
    args.push(String::from_str("--bin"));
    args.push(String::from_str(bin));
    args.push(String::from_str("--"));
    let mut i: usize = 0;
    while i < extra.len()
        invariant
            i <= extra@.len(),
            args@.len() == 6 + i,
            args@[0]@ == "run"@,
            args@[1]@ == "-p"@,
            args@[2]@ == "ble-hack-skill"@,
            args@[3]@ == "--bin"@,
            args@[4]@ == bin@,
            args@[5]@ == "--"@,
            forall|k: int| 0 <= k < i ==> #[trigger] args@[6 + k]@ == extra@[k]@,
        decreases extra.len() - i,
    {
        args.push(extra[i].clone());
        i = i + 1;
    }
    args
}

/// The scanner arguments of a `--discover` rescan: seconds and output
/// path, then the brand and product filters when given.
pub fn discover_scan_args(seconds: u64, output: &str, brand: &Option<String>, product: &Option<String>) -> (args: Vec<String>)
    ensures
        args@.len() == 5 + (if brand is Some { 2int } else { 0 }) + (if product is Some { 2int } else { 0 }),
        args@[0]@ == "--discover"@,
        args@[1]@ == "--seconds"@,
        args@[2]@ == decimal(seconds as nat),
        args@[3]@ == "--output"@,
        args@[4]@ == output@,
        brand matches Some(b) ==> args@[5]@ == "--brand"@ && args@[6]@ == b@,
        product matches Some(p) ==> ({
            let at = if brand is Some { 7int } else { 5 };
            args@[at]@ == "--product"@ && args@[at + 1]@ == p@
        }),
{
    let mut args: Vec<String> = Vec::new();
    args.push(String::from_str("--discover"));
    args.push(String::from_str("--seconds"));
    let mut secs = String::new();
    push_decimal(&mut secs, seconds);
    assert(secs@ =~= decimal(seconds as nat));
    args.push(secs);
    args.push(String::from_str("--output"));
    args.push(String::from_str(output));
    if let Some(b) = brand {
        args.push(String::from_str("--brand"));
        args.push(b.clone());
    }
    if let Some(p) = product {
        args.push(String::from_str("--product"));
        args.push(p.clone());
    }
    args
}

/// The prober arguments of the automatic probe of one device.
pub fn probe_args(device: &str, output: &str) -> (args: Vec<String>)
    ensures
        args@.len() == 5,
        args@[0]@ == "--device"@,
        args@[1]@ == device@,
        args@[2]@ == "--auto"@,
        args@[3]@ == "--output"@,
        args@[4]@ == output@,
{
    let mut args: Vec<String> = Vec::new();
    args.push(String::from_str("--device"));
    args.push(String::from_str(device));
    args.push(String::from_str("--auto"));
    args.push(String::from_str("--output"));
    args.push(String::from_str(output));
    args
}

/// A verification report that records at least one success.
pub open spec fn has_success_spec(report: Seq<char>) -> bool {
    contains_text(report, "| success |"@) || contains_text(report, "SUCCESS"@)
}

/// Whether the verification report records a success (a `| success |` cell
/// or the word `SUCCESS`).
pub fn verify_has_success(report: &str) -> (r: bool)
    ensures
        r == has_success_spec(report@),
{
    text_contains(report, "| success |") || text_contains(report, "SUCCESS")
}

/// A scanned BLE device as ranked by the scanner.
pub struct ScannedDevice {
    pub id: String,
    pub local_name: Option<String>,
    pub tier: String,
    pub brand_match: bool,
    pub rssi: Option<i16>,
    pub score: i32,
}

/// One table line of the scan report; a missing name or RSSI prints as `—`.
pub open spec fn device_line(d: ScannedDevice) -> Seq<char> {
    "| "@ + d.tier@ + " | `"@ + d.id@ + "` | "@ + (match d.local_name {
        Some(n) => n@,
        None => "—"@,
    }) + " | "@ + bool_text(d.brand_match) + " | "@ + (match d.rssi {
        Some(r) => signed_decimal(r as int),
        None => "—"@,
    }) + " | "@ + signed_decimal(d.score as int) + " |\n"@
}

/// The table lines of all devices, in order.
pub open spec fn devices_table(devices: Seq<ScannedDevice>) -> Seq<char>
    decreases devices.len(),
{
    if devices.len() == 0 {
        Seq::<char>::empty()
    } else {
        devices_table(devices.drop_last()) + device_line(devices.last())
    }
}

/// Title, filters, device count and table header of the scan report.
pub open spec fn scan_head(count: nat, brand: Option<Seq<char>>, product: Option<Seq<char>>) -> Seq<char> {
    "# BLE Scan Results\n\n"@ + (match brand {
        Some(b) => "- Brand filter: `"@ + b + "`\n"@,
        None => Seq::<char>::empty(),
    }) + (match product {
        Some(p) => "- Product filter: `"@ + p + "`\n"@,
        None => Seq::<char>::empty(),
    }) + "- Devices found: "@ + decimal(count) + "\n\n"@
        + "| tier | device_id | name | brand_match | rssi | score |\n"@
        + "| ---- | --------- | ---- | ----------- | ---- | ----- |\n"@
}

/// Layout of the scan report: the column header tier, device_id, name,
/// brand_match, rssi, score follows the device count; each device adds one
/// line with those fields in those columns (a missing name or RSSI as `—`),
/// in order.
pub proof fn lemma_scan_layout(count: nat, devices: Seq<ScannedDevice>, d: ScannedDevice)
    ensures
        scan_head(count, None, None) == "# BLE Scan Results\n\n- Devices found: "@ + decimal(count)
            + "\n\n| tier | device_id | name | brand_match | rssi | score |\n| ---- | --------- | ---- | ----------- | ---- | ----- |\n"@,
        devices_table(Seq::<ScannedDevice>::empty()) == Seq::<char>::empty(),
        devices_table(devices.push(d)) == devices_table(devices) + ("| "@ + d.tier@ + " | `"@
            + d.id@ + "` | "@ + (if d.local_name is Some {
            d.local_name->0@
        } else {
            "—"@
        }) + " | "@ + (if d.brand_match {
            "true"@
        } else {
            "false"@
        }) + " | "@ + (if d.rssi is Some {
            signed_decimal(d.rssi->0 as int)
        } else {
            "—"@
        }) + " | "@ + signed_decimal(d.score as int) + " |\n"@),
{
    reveal_strlit("\n\n");
    reveal_strlit("| tier | device_id | name | brand_match | rssi | score |\n");
    reveal_strlit("| ---- | --------- | ---- | ----------- | ---- | ----- |\n");
    reveal_strlit("\n\n| tier | device_id | name | brand_match | rssi | score |\n| ---- | --------- | ---- | ----------- | ---- | ----- |\n");
    assert(devices.push(d).drop_last() =~= devices);
    assert(scan_head(count, None, None) =~= "# BLE Scan Results\n\n- Devices found: "@ + decimal(count)
        + "\n\n| tier | device_id | name | brand_match | rssi | score |\n| ---- | --------- | ---- | ----------- | ---- | ----- |\n"@) by {
        reveal_strlit("# BLE Scan Results\n\n");
        reveal_strlit("- Devices found: ");
        reveal_strlit("# BLE Scan Results\n\n- Devices found: ");
        assert("# BLE Scan Results\n\n"@ + Seq::<char>::empty() + Seq::<char>::empty() + "- Devices found: "@
            =~= "# BLE Scan Results\n\n- Devices found: "@);
    }
    assert(devices_table(devices.push(d)) =~= devices_table(devices) + device_line(d));
}

/// The filters of a scan report stand between the title and the device
/// count: first the brand, then the product, each on its own line.
pub proof fn lemma_scan_filters(count: nat, b: Seq<char>, p: Seq<char>)
    ensures
        scan_head(count, Some(b), Some(p)) == "# BLE Scan Results\n\n- Brand filter: `"@ + b
            + "`\n- Product filter: `"@ + p + "`\n- Devices found: "@ + decimal(count)
            + "\n\n| tier | device_id | name | brand_match | rssi | score |\n| ---- | --------- | ---- | ----------- | ---- | ----- |\n"@,
        scan_head(count, Some(b), None) == "# BLE Scan Results\n\n- Brand filter: `"@ + b
            + "`\n- Devices found: "@ + decimal(count)
            + "\n\n| tier | device_id | name | brand_match | rssi | score |\n| ---- | --------- | ---- | ----------- | ---- | ----- |\n"@,
        scan_head(count, None, Some(p)) == "# BLE Scan Results\n\n- Product filter: `"@ + p
            + "`\n- Devices found: "@ + decimal(count)
            + "\n\n| tier | device_id | name | brand_match | rssi | score |\n| ---- | --------- | ---- | ----------- | ---- | ----- |\n"@,
{
    reveal_strlit("# BLE Scan Results\n\n");
    reveal_strlit("- Brand filter: `");
    reveal_strlit("# BLE Scan Results\n\n- Brand filter: `");
    reveal_strlit("`\n");
    reveal_strlit("- Product filter: `");
    reveal_strlit("`\n- Product filter: `");
    reveal_strlit("# BLE Scan Results\n\n- Product filter: `");
    reveal_strlit("- Devices found: ");
    reveal_strlit("`\n- Devices found: ");
    reveal_strlit("\n\n");
    reveal_strlit("| tier | device_id | name | brand_match | rssi | score |\n");
    reveal_strlit("| ---- | --------- | ---- | ----------- | ---- | ----- |\n");
    reveal_strlit("\n\n| tier | device_id | name | brand_match | rssi | score |\n| ---- | --------- | ---- | ----------- | ---- | ----- |\n");
    assert(scan_head(count, Some(b), Some(p)) =~= "# BLE Scan Results\n\n- Brand filter: `"@ + b
        + "`\n- Product filter: `"@ + p + "`\n- Devices found: "@ + decimal(count)
        + "\n\n| tier | device_id | name | brand_match | rssi | score |\n| ---- | --------- | ---- | ----------- | ---- | ----- |\n"@);
    assert(scan_head(count, Some(b), None) =~= "# BLE Scan Results\n\n- Brand filter: `"@ + b
        + "`\n- Devices found: "@ + decimal(count)
        + "\n\n| tier | device_id | name | brand_match | rssi | score |\n| ---- | --------- | ---- | ----------- | ---- | ----- |\n"@);
    assert(scan_head(count, None, Some(p)) =~= "# BLE Scan Results\n\n- Product filter: `"@ + p
        + "`\n- Devices found: "@ + decimal(count)
        + "\n\n| tier | device_id | name | brand_match | rssi | score |\n| ---- | --------- | ---- | ----------- | ---- | ----- |\n"@);
}

/// The view of an optional borrowed text.
pub open spec fn opt_str(o: Option<&str>) -> Option<Seq<char>> {
    match o {
        Some(s) => Some(s@),
        None => None,
    }
}

fn push_device_line(out: &mut String, d: &ScannedDevice)
    ensures
        final(out)@ == old(out)@ + device_line(*d),
{
    out.append("| ");
    out.append(d.tier.as_str());
    out.append(" | `");
    out.append(d.id.as_str());
    out.append("` | ");
    match &d.local_name {
        Some(n) => out.append(n.as_str()),
        None => out.append("—"),
    }
    out.append(" | ");
    push_bool(out, d.brand_match);
    out.append(" | ");
    match d.rssi {
        Some(r) => push_signed(out, r as i32),
        None => out.append("—"),
    }
    out.append(" | ");
    push_signed(out, d.score);
    out.append(" |\n");
    assert(out@ =~= old(out)@ + device_line(*d));
}

/// The markdown report of a scan.
pub fn format_scan_md(devices: &[ScannedDevice], brand: Option<&str>, product: Option<&str>) -> (out: String)
    ensures
        out@ == scan_head(devices@.len(), opt_str(brand), opt_str(product)) + devices_table(devices@),
{
    let mut out = String::from_str("# BLE Scan Results\n\n");
    if let Some(b) = brand {
        out.append("- Brand filter: `");
        out.append(b);
        out.append("`\n");
    }
    if let Some(p) = product {
        out.append("- Product filter: `");
        out.append(p);
        out.append("`\n");
    }
    out.append("- Devices found: ");
    push_decimal(&mut out, devices.len() as u64);
    out.append("\n\n");
    out.append("| tier | device_id | name | brand_match | rssi | score |\n");
    out.append("| ---- | --------- | ---- | ----------- | ---- | ----- |\n");
    let ghost head = scan_head(devices@.len(), opt_str(brand), opt_str(product));
    assert(out@ =~= head + devices_table(devices@.take(0)));
    let mut i: usize = 0;
    while i < devices.len()
        invariant
            i <= devices.len(),
            head == scan_head(devices@.len(), opt_str(brand), opt_str(product)),
            out@ == head + devices_table(devices@.take(i as int)),
        decreases devices.len() - i,
    {
        push_device_line(&mut out, &devices[i]);
        proof {
            assert(devices@.take(i + 1).drop_last() =~= devices@.take(i as int));
            assert(devices@.take(i + 1).last() == devices@[i as int]);
        }
        assert(out@ =~= head + devices_table(devices@.take(i + 1)));
        i = i + 1;
    }
    assert(devices@.take(devices.len() as int) =~= devices@);
    out
}

} // verus!
