//! The Jetpack-specific parameter sweep on FFE1: which frames are sent
//! under which labels, how each probe is recorded, which replies count as
//! hits, and the markdown report.

use vstd::prelude::*;
use crate::crc::{
    aa_frame, crc8, crc_checks, crc_frame, frame_with_aa, frame_with_crc, is_uart_frame,
    lemma_frames_well_formed, AA_TAIL,
};
use crate::hex::{
    decimal, hex2, hex_digit, hex_text, lemma_hex_search, lemma_hex_text_index, push_decimal,
    push_hex2, reply_or, reply_text, reply_view, spaced_hex,
};
use crate::jetpack_protocol::{boost_body, op08_body};
use crate::text::{bool_text, contains_text, push_bool, text_contains, text_eq};

verus! {

/// Number of boost probes at the start of the sweep; the CRC grid follows.
pub const SWEEP_BOOST_COUNT: usize = 6;

/// Boost scales probed by the sweep, in order.
pub open spec fn sweep_scales() -> Seq<u8> {
    seq![0x00u8, 0x20u8, 0x40u8, 0x80u8, 0xCCu8, 0xFFu8]
}

/// Values of the fourth body byte probed by the CRC grid, in order.
pub open spec fn sweep_p1_values() -> Seq<u8> {
    seq![0x00u8, 0x03u8]
}

/// Label of a boost probe: `boost_{scale:02X}`.
pub open spec fn boost_label(scale: u8) -> Seq<char> {
    "boost_"@ + hex2(scale)
}

/// Label of a CRC grid probe: `crc_p1_{p1:02X}_m{mode}_t{travel}`.
pub open spec fn crc_label(p1: u8, mode: u8, travel: u8) -> Seq<char> {
    "crc_p1_"@ + hex2(p1) + "_m"@ + decimal(mode as nat) + "_t"@ + decimal(travel as nat)
}

/// Number of probes in the sweep: 6 boost scales, then 2 x 8 modes x 5 travels.
pub open spec fn sweep_len() -> int {
    86
}

/// The `k`-th probe of the sweep: the 6 boost frames, then for each `p1`
/// in `[0x00, 0x03]`, each mode 1..=8 and each travel 1..=5 (travel fastest)
/// the CRC frame of `55 08 00 p1 mode travel`.
pub open spec fn sweep_entry(k: int) -> (Seq<char>, Seq<u8>) {
    if k < SWEEP_BOOST_COUNT {
        (boost_label(sweep_scales()[k]), aa_frame(boost_body(sweep_scales()[k])))
    } else {
        let j = k - SWEEP_BOOST_COUNT;
        let p1 = sweep_p1_values()[j / 40];
        let mode = ((j % 40) / 5 + 1) as u8;
        let travel = (j % 5 + 1) as u8;
        (crc_label(p1, mode, travel), crc_frame(op08_body(p1, mode, travel)))
    }
}

/// The text and bytes of a labelled frame.
pub open spec fn probe_view(e: (String, Vec<u8>)) -> (Seq<char>, Seq<u8>) {
    (e.0@, e.1@)
}

proof fn lemma_grid_index(pi: int, m: int, t: int)
    requires
        0 <= pi < 2,
        1 <= m <= 8,
        1 <= t <= 5,
    ensures
        ({
            let j = 40 * pi + 5 * (m - 1) + (t - 1);
            &&& j / 40 == pi
            &&& (j % 40) / 5 + 1 == m
            &&& j % 5 + 1 == t
        }),
{
    let j = 40 * pi + 5 * (m - 1) + (t - 1);
    assert(j / 40 == pi && j % 40 == 5 * (m - 1) + (t - 1)) by (nonlinear_arith)
        requires
            j == 40 * pi + 5 * (m - 1) + (t - 1),
            0 <= 5 * (m - 1) + (t - 1) < 40,
    ;
    assert((5 * (m - 1) + (t - 1)) / 5 == m - 1 && (5 * (m - 1) + (t - 1)) % 5 == t - 1)
        by (nonlinear_arith)
        requires
            0 <= t - 1 < 5,
            0 <= m - 1,
    ;
    assert(j % 5 == t - 1) by (nonlinear_arith)
        requires
            j == 40 * pi + 5 * (m - 1) + (t - 1),
            0 <= t - 1 < 5,
            0 <= pi,
            0 <= m - 1,
    ;
}

fn boost_probe(scale: u8) -> (e: (String, Vec<u8>))
    ensures
        probe_view(e) == (boost_label(scale), aa_frame(boost_body(scale))),
{
    let mut label = String::from_str("boost_");
    push_hex2(&mut label, scale);
    let frame = frame_with_aa([0x55, 0x04, 0x00, 0x00, 0x00, scale]);
    proof {
        assert(seq![0x55u8, 0x04u8, 0x00u8, 0x00u8, 0x00u8, scale] =~= boost_body(scale));
    }
    let bytes = vstd::slice::slice_to_vec(frame.as_slice());
    assert(bytes@ =~= aa_frame(boost_body(scale)));
    (label, bytes)
}

fn crc_probe(p1: u8, mode: u8, travel: u8) -> (e: (String, Vec<u8>))
    ensures
        probe_view(e) == (crc_label(p1, mode, travel), crc_frame(op08_body(p1, mode, travel))),
{
    let mut label = String::from_str("crc_p1_");
    push_hex2(&mut label, p1);
    label.append("_m");
    push_decimal(&mut label, mode as u64);
    label.append("_t");
    push_decimal(&mut label, travel as u64);
    let frame = frame_with_crc([0x55, 0x08, 0x00, p1, mode, travel]);
    proof {
        assert([0x55u8, 0x08u8, 0x00u8, p1, mode, travel]@ =~= op08_body(p1, mode, travel));
    }
    let bytes = vstd::slice::slice_to_vec(frame.as_slice());
    assert(label@ =~= crc_label(p1, mode, travel));
    (label, bytes)
}

/// The labelled frames of the sweep, in the order they are probed.
pub fn sweep_plan() -> (plan: Vec<(String, Vec<u8>)>)
    ensures
        plan@.len() == sweep_len(),
        forall|k: int| 0 <= k < sweep_len() ==> probe_view(#[trigger] plan@[k]) == sweep_entry(k),
{
    let scales: [u8; 6] = [0x00, 0x20, 0x40, 0x80, 0xCC, 0xFF];
    assert(scales@ =~= sweep_scales());
    let mut plan: Vec<(String, Vec<u8>)> = Vec::new();
    let mut i: usize = 0;
    while i < 6
        invariant
            i <= 6,
            scales@ == sweep_scales(),
            plan@.len() == i,
            forall|k: int| 0 <= k < i ==> probe_view(#[trigger] plan@[k]) == sweep_entry(k),
        decreases 6 - i,
    {
        plan.push(boost_probe(scales[i]));
        i = i + 1;
    }
    let p1s: [u8; 2] = [0x00, 0x03];
    assert(p1s@ =~= sweep_p1_values());
    let mut pi: usize = 0;
    while pi < 2
        invariant
            pi <= 2,
            p1s@ == sweep_p1_values(),
            plan@.len() == 6 + 40 * pi,
            forall|k: int| 0 <= k < plan@.len() ==> probe_view(#[trigger] plan@[k]) == sweep_entry(k),
        decreases 2 - pi,
    {
        let mut mode: u8 = 1;
        while mode <= 8
            invariant
                pi < 2,
                1 <= mode <= 9,
                p1s@ == sweep_p1_values(),
                plan@.len() == 6 + 40 * pi + 5 * (mode - 1),
                forall|k: int| 0 <= k < plan@.len() ==> probe_view(#[trigger] plan@[k]) == sweep_entry(k),
            decreases 9 - mode,
        {
            let mut travel: u8 = 1;
            while travel <= 5
                invariant
                    pi < 2,
                    1 <= mode <= 8,
                    1 <= travel <= 6,
                    p1s@ == sweep_p1_values(),
                    plan@.len() == 6 + 40 * pi + 5 * (mode - 1) + (travel - 1),
                    forall|k: int| 0 <= k < plan@.len() ==> probe_view(#[trigger] plan@[k]) == sweep_entry(k),
                decreases 6 - travel,
            {
                proof {
                    lemma_grid_index(pi as int, mode as int, travel as int);
                }
                plan.push(crc_probe(p1s[pi], mode, travel));
                travel = travel + 1;
            }
            mode = mode + 1;
        }
        pi = pi + 1;
    }
    plan
}


/// Every frame of the sweep is a UART frame: the boost frames end in
/// `0xAA` and the grid frames carry a valid check byte.
pub proof fn lemma_sweep_frames()
    ensures
        forall|k: int| 0 <= k < sweep_len() ==> is_uart_frame(#[trigger] sweep_entry(k).1),
        forall|k: int| 0 <= k < 6 ==> (#[trigger] sweep_entry(k)).1[6] == AA_TAIL,
        forall|k: int| 6 <= k < sweep_len() ==> crc_checks(#[trigger] sweep_entry(k).1),
{
    assert forall|k: int| 0 <= k < sweep_len() implies {
        &&& is_uart_frame(#[trigger] sweep_entry(k).1)
        &&& k < 6 ==> sweep_entry(k).1[6] == AA_TAIL
        &&& k >= 6 ==> crc_checks(sweep_entry(k).1)
    } by {
        if k < 6 {
            lemma_frames_well_formed(boost_body(sweep_scales()[k]));
        } else {
            let j = k - 6;
            let p1 = sweep_p1_values()[j / 40];
            let mode = ((j % 40) / 5 + 1) as u8;
            let travel = (j % 5 + 1) as u8;
            lemma_frames_well_formed(op08_body(p1, mode, travel));
        }
    }
}

/// The first six sweep probes are the boost frames `55 04 00 00 00 s AA`
/// labelled `boost_{s:02X}`, for s = 00, 20, 40, 80, CC, FF in that order.
pub proof fn lemma_sweep_boost_values()
    ensures
        sweep_entry(0) == ("boost_00"@, seq![0x55u8, 0x04u8, 0x00u8, 0x00u8, 0x00u8, 0x00u8, 0xAAu8]),
        sweep_entry(1) == ("boost_20"@, seq![0x55u8, 0x04u8, 0x00u8, 0x00u8, 0x00u8, 0x20u8, 0xAAu8]),
        sweep_entry(2) == ("boost_40"@, seq![0x55u8, 0x04u8, 0x00u8, 0x00u8, 0x00u8, 0x40u8, 0xAAu8]),
        sweep_entry(3) == ("boost_80"@, seq![0x55u8, 0x04u8, 0x00u8, 0x00u8, 0x00u8, 0x80u8, 0xAAu8]),
        sweep_entry(4) == ("boost_CC"@, seq![0x55u8, 0x04u8, 0x00u8, 0x00u8, 0x00u8, 0xCCu8, 0xAAu8]),
        sweep_entry(5) == ("boost_FF"@, seq![0x55u8, 0x04u8, 0x00u8, 0x00u8, 0x00u8, 0xFFu8, 0xAAu8]),
{
    assert(sweep_entry(0).1 =~= seq![0x55u8, 0x04u8, 0x00u8, 0x00u8, 0x00u8, 0x00u8, 0xAAu8]);
    assert(sweep_entry(1).1 =~= seq![0x55u8, 0x04u8, 0x00u8, 0x00u8, 0x00u8, 0x20u8, 0xAAu8]);
    assert(sweep_entry(2).1 =~= seq![0x55u8, 0x04u8, 0x00u8, 0x00u8, 0x00u8, 0x40u8, 0xAAu8]);
    assert(sweep_entry(3).1 =~= seq![0x55u8, 0x04u8, 0x00u8, 0x00u8, 0x00u8, 0x80u8, 0xAAu8]);
    assert(sweep_entry(4).1 =~= seq![0x55u8, 0x04u8, 0x00u8, 0x00u8, 0x00u8, 0xCCu8, 0xAAu8]);
    assert(sweep_entry(5).1 =~= seq![0x55u8, 0x04u8, 0x00u8, 0x00u8, 0x00u8, 0xFFu8, 0xAAu8]);
    reveal_strlit("boost_");
    reveal_strlit("boost_00");
    assert("boost_00"@ =~= "boost_"@ + hex2(0x00));
    reveal_strlit("boost_20");
    assert("boost_20"@ =~= "boost_"@ + hex2(0x20));
    reveal_strlit("boost_40");
    assert("boost_40"@ =~= "boost_"@ + hex2(0x40));
    reveal_strlit("boost_80");
    assert("boost_80"@ =~= "boost_"@ + hex2(0x80));
    reveal_strlit("boost_CC");
    assert("boost_CC"@ =~= "boost_"@ + hex2(0xCC));
    reveal_strlit("boost_FF");
    assert("boost_FF"@ =~= "boost_"@ + hex2(0xFF));
}

/// Each probe of the CRC grid (entries 6..86) sends
/// `55 08 00 p1 mode travel` and its check byte, with p1 = 00 for the first
/// forty and 03 for the last forty, mode running 1..=8 and travel 1..=5
/// (travel fastest); its label names those three bytes:
/// `crc_p1_{p1:02X}_m{mode}_t{travel}`.
pub proof fn lemma_sweep_grid_values()
    ensures
        forall|k: int|
            6 <= k < 86 ==> {
                let e = #[trigger] sweep_entry(k);
                let j = k - 6;
                let body = seq![
                    0x55u8,
                    0x08u8,
                    0x00u8,
                    if j < 40 { 0x00u8 } else { 0x03u8 },
                    ((j % 40) / 5 + 1) as u8,
                    (j % 5 + 1) as u8,
                ];
                &&& e.1 == body.push(crc8(body))
                &&& e.0 == "crc_p1_"@ + hex2(e.1[3]) + "_m"@ + decimal(e.1[4] as nat) + "_t"@
                    + decimal(e.1[5] as nat)
            },
{
    assert forall|k: int| 6 <= k < 86 implies {
        let e = #[trigger] sweep_entry(k);
        let j = k - 6;
        let body = seq![
            0x55u8,
            0x08u8,
            0x00u8,
            if j < 40 { 0x00u8 } else { 0x03u8 },
            ((j % 40) / 5 + 1) as u8,
            (j % 5 + 1) as u8,
        ];
        &&& e.1 == body.push(crc8(body))
        &&& e.0 == "crc_p1_"@ + hex2(e.1[3]) + "_m"@ + decimal(e.1[4] as nat) + "_t"@
            + decimal(e.1[5] as nat)
    } by {
        let j = k - 6;
        assert(j / 40 == 0 <==> j < 40);
        assert(0 <= j / 40 < 2);
        assert(0 <= (j % 40) / 5 < 8);
        assert(0 <= j % 5 < 5);
        let p1 = sweep_p1_values()[j / 40];
        let body = op08_body(p1, ((j % 40) / 5 + 1) as u8, (j % 5 + 1) as u8);
        assert(sweep_entry(k).1 =~= body.push(crc8(body)));
    }
}

/// One probe of the sweep as recorded in the report.
pub struct Row {
    pub label: String,
    pub sent: String,
    pub response: String,
    pub status_before: String,
    pub status_after: String,
    pub status_delta: bool,
}

/// What the sweep records of a probe: the sent frame and the reply as
/// spaced hex (`(silent)` when there was none), the status read before and
/// after, and whether those two differ.
pub fn probe_row(
    label: &str,
    frame: &[u8],
    response: &Option<Vec<u8>>,
    status_before: String,
    status_after: String,
) -> (row: Row)
    ensures
        row.label@ == label@,
        row.sent@ == hex_text(frame@),
        row.response@ == reply_text(reply_view(*response), "(silent)"@),
        row.status_before@ == status_before@,
        row.status_after@ == status_after@,
        row.status_delta == (status_before@ != status_after@),
{
    let delta = !text_eq(status_before.as_str(), status_after.as_str());
    Row {
        label: String::from_str(label),
        sent: spaced_hex(frame),
        response: reply_or(response, "(silent)"),
        status_before,
        status_after,
        status_delta: delta,
    }
}

/// The battery/status reply as recorded between probes: spaced hex, or
/// `(none)` when the device stayed silent.
pub fn status_text(reply: &Option<Vec<u8>>) -> (r: String)
    ensures
        r@ == reply_text(reply_view(*reply), "(none)"@),
{
    reply_or(reply, "(none)")
}

/// A reply worth printing during the sweep: neither a `55 FF` error frame
/// nor silence.
pub open spec fn is_hit_text(response: Seq<char>) -> bool {
    !contains_text(response, "55 FF"@) && response != "(silent)"@
}

/// The bytes hold the `55 FF` error header somewhere.
pub open spec fn holds_error_bytes(b: Seq<u8>) -> bool {
    exists|m: int| 0 <= m && m + 2 <= b.len() && #[trigger] b.subrange(m, m + 2) == seq![0x55u8, 0xFFu8]
}

/// The text test for a hit on a recorded reply is a test on its bytes: a
/// probe is a hit exactly when a reply came and its bytes never hold
/// `0x55, 0xFF` in a row.
pub proof fn lemma_hit_on_bytes(reply: Option<Seq<u8>>)
    ensures
        is_hit_text(reply_text(reply, "(silent)"@)) <==> (reply matches Some(b) && !holds_error_bytes(b)),
{
    reveal_strlit("55 FF");
    reveal_strlit("(silent)");
    let p = seq![0x55u8, 0xFFu8];
    assert(p.drop_first() =~= seq![0xFFu8]);
    assert(hex_text(seq![0xFFu8]) == hex2(0xFF));
    assert(hex_text(p) == hex2(0x55) + seq![' '] + hex_text(seq![0xFFu8]));
    assert("55 FF"@ =~= hex_text(p));
    match reply {
        Some(b) => {
            lemma_hex_search(b, p);
            if b.len() > 0 {
                lemma_hex_text_index(b);
                assert(hex_text(b)[0] == hex_digit(b[0] as int / 16));
                assert(hex_text(b)[0] != "(silent)"@[0]);
            } else {
                assert(hex_text(b).len() == 0);
            }
        },
        None => {
            assert(!contains_text("(silent)"@, "55 FF"@)) by {
                if contains_text("(silent)"@, "55 FF"@) {
                    let i = choose|i: int| crate::text::occurs_at("(silent)"@, "55 FF"@, i);
                    assert("(silent)"@.subrange(i, i + 5)[0] == "(silent)"@[i]);
                }
            }
        },
    }
}

/// Whether a recorded probe is a hit (printed as `HIT` while sweeping).
pub fn is_hit(row: &Row) -> (r: bool)
    ensures
        r == is_hit_text(row.response@),
{
    !text_contains(row.response.as_str(), "55 FF") && !text_eq(row.response.as_str(), "(silent)")
}

/// One table line of the report.
pub open spec fn row_line(r: Row) -> Seq<char> {
    "| "@ + r.label@ + " | `"@ + r.sent@ + "` | `"@ + r.response@ + "` | `"@ + r.status_before@
        + "` | `"@ + r.status_after@ + "` | "@ + bool_text(r.status_delta) + " |\n"@
}

/// The table lines of all rows, in order.
pub open spec fn rows_table(rows: Seq<Row>) -> Seq<char>
    decreases rows.len(),
{
    if rows.len() == 0 {
        Seq::<char>::empty()
    } else {
        rows_table(rows.drop_last()) + row_line(rows.last())
    }
}

/// Title, device line and table header of the report.
pub open spec fn report_head(device: Seq<char>) -> Seq<char> {
    "# Jetpack Sweep Results\n\n- Device: `"@ + device + "`\n\n"@
        + "| label | sent | response | status_before | status_after | delta |\n"@
        + "| ----- | ---- | -------- | ------------- | ------------ | ----- |\n"@
}

/// Layout of the sweep report: the header names the columns label, sent,
/// response, status_before, status_after, delta; each row adds one line
/// with those fields in those columns (the delta as `true`/`false`), in
/// row order.
pub proof fn lemma_report_layout(device: Seq<char>, rows: Seq<Row>, r: Row)
    ensures
        report_head(device) == "# Jetpack Sweep Results\n\n- Device: `"@ + device
            + "`\n\n| label | sent | response | status_before | status_after | delta |\n| ----- | ---- | -------- | ------------- | ------------ | ----- |\n"@,
        rows_table(Seq::<Row>::empty()) == Seq::<char>::empty(),
        rows_table(rows.push(r)) == rows_table(rows) + ("| "@ + r.label@ + " | `"@ + r.sent@
            + "` | `"@ + r.response@ + "` | `"@ + r.status_before@ + "` | `"@ + r.status_after@
            + "` | "@ + (if r.status_delta {
            "true"@
        } else {
            "false"@
        }) + " |\n"@),
{
    reveal_strlit("`\n\n");
    reveal_strlit("| label | sent | response | status_before | status_after | delta |\n");
    reveal_strlit("| ----- | ---- | -------- | ------------- | ------------ | ----- |\n");
    reveal_strlit("`\n\n| label | sent | response | status_before | status_after | delta |\n| ----- | ---- | -------- | ------------- | ------------ | ----- |\n");
    assert(rows.push(r).drop_last() =~= rows);
    assert(report_head(device) =~= "# Jetpack Sweep Results\n\n- Device: `"@ + device
        + "`\n\n| label | sent | response | status_before | status_after | delta |\n| ----- | ---- | -------- | ------------- | ------------ | ----- |\n"@);
    assert(rows_table(rows.push(r)) =~= rows_table(rows) + ("| "@ + r.label@ + " | `"@ + r.sent@
        + "` | `"@ + r.response@ + "` | `"@ + r.status_before@ + "` | `"@ + r.status_after@
        + "` | "@ + (if r.status_delta {
        "true"@
    } else {
        "false"@
    }) + " |\n"@));
}

fn push_row_line(out: &mut String, r: &Row)
    ensures
        final(out)@ == old(out)@ + row_line(*r),
{
    out.append("| ");
    out.append(r.label.as_str());
    out.append(" | `");
    out.append(r.sent.as_str());
    out.append("` | `");
    out.append(r.response.as_str());
    out.append("` | `");
    out.append(r.status_before.as_str());
    out.append("` | `");
    out.append(r.status_after.as_str());
    out.append("` | ");
    push_bool(out, r.status_delta);
    out.append(" |\n");
    assert(out@ =~= old(out)@ + row_line(*r));
}

/// The markdown report of a sweep.
pub fn format_sweep(device: &str, rows: &[Row]) -> (out: String)
    ensures
        out@ == report_head(device@) + rows_table(rows@),
{
    let mut out = String::from_str("# Jetpack Sweep Results\n\n- Device: `");
    out.append(device);
    out.append("`\n\n");
    out.append("| label | sent | response | status_before | status_after | delta |\n");
    out.append("| ----- | ---- | -------- | ------------- | ------------ | ----- |\n");
    assert(out@ =~= report_head(device@) + rows_table(rows@.take(0)));
    let mut i: usize = 0;
    while i < rows.len()
        invariant
            i <= rows.len(),
            out@ == report_head(device@) + rows_table(rows@.take(i as int)),
        decreases rows.len() - i,
    {
        push_row_line(&mut out, &rows[i]);
        proof {
            assert(rows@.take(i + 1).drop_last() =~= rows@.take(i as int));
            assert(rows@.take(i + 1).last() == rows@[i as int]);
        }
        assert(out@ =~= report_head(device@) + rows_table(rows@.take(i + 1)));
        i = i + 1;
    }
    assert(rows@.take(rows.len() as int) =~= rows@);
    out
}

} // verus!
