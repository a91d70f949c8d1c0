//! Jetpack-specific probes on FFE1: how idle notifications, characteristic
//! reads and burst frames are recorded, which results are worth a second
//! look, and the markdown report.

use vstd::prelude::*;
use crate::hex::{hex_text, reply_or, reply_text, reply_view, spaced_hex};
use crate::text::text_eq;

verus! {

/// One probe result as recorded in the report.
pub struct ProbeRow {
    pub label: String,
    pub channel: String,
    pub sent: String,
    pub response: String,
    pub class: String,
}

/// A notification received while listening idle on the channel.
pub fn idle_notify_row(channel_label: &str, data: &[u8]) -> (row: ProbeRow)
    ensures
        row.label@ == "idle_notify"@,
        row.channel@ == channel_label@,
        row.sent@ == "(listen)"@,
        row.response@ == hex_text(data@),
        row.class@ == "non-standard"@,
{
    ProbeRow {
        label: String::from_str("idle_notify"),
        channel: String::from_str(channel_label),
        sent: String::from_str("(listen)"),
        response: spaced_hex(data),
        class: String::from_str("non-standard"),
    }
}

/// The value of a readable characteristic, labelled `read_{uuid}`.
pub fn read_row(uuid_text: &str, channel_label: &str, data: &[u8]) -> (row: ProbeRow)
    ensures
        row.label@ == "read_"@ + uuid_text@,
        row.channel@ == channel_label@,
        row.sent@ == "(read)"@,
        row.response@ == hex_text(data@),
        row.class@ == "non-standard"@,
{
    let mut label = String::from_str("read_");
    label.append(uuid_text);
    ProbeRow {
        label,
        channel: String::from_str(channel_label),
        sent: String::from_str("(read)"),
        response: spaced_hex(data),
        class: String::from_str("non-standard"),
    }
}

/// One burst of a candidate frame: the frame and the reply as spaced hex
/// (`(no response)` when there was none), with the reply's class.
pub fn burst_row(
    label: &str,
    channel_label: &str,
    frame: &[u8],
    response: &Option<Vec<u8>>,
    class: &str,
) -> (row: ProbeRow)
    ensures
        row.label@ == label@,
        row.channel@ == channel_label@,
        row.sent@ == hex_text(frame@),
        row.response@ == reply_text(reply_view(*response), "(no response)"@),
        row.class@ == class@,
{
    ProbeRow {
        label: String::from_str(label),
        channel: String::from_str(channel_label),
        sent: spaced_hex(frame),
        response: reply_or(response, "(no response)"),
        class: String::from_str(class),
    }
}

/// The class of a burst reply: `silent` without a reply, `echo` when the
/// device repeats the frame, `non-standard` otherwise.
pub open spec fn reply_class(frame: Seq<u8>, response: Option<Seq<u8>>) -> Seq<char> {
    match response {
        None => "silent"@,
        Some(r) => if r == frame {
            "echo"@
        } else {
            "non-standard"@
        },
    }
}

/// A burst reply is classed `echo` exactly when it repeats the sent frame,
/// `silent` exactly when there was none, and `non-standard` otherwise.
pub proof fn lemma_reply_classes(frame: Seq<u8>, response: Option<Seq<u8>>)
    ensures
        reply_class(frame, response) == "echo"@ <==> response == Some(frame),
        reply_class(frame, response) == "silent"@ <==> response is None,
        reply_class(frame, response) == "non-standard"@ <==> (response is Some && response != Some(frame)),
{
    reveal_strlit("echo");
    reveal_strlit("silent");
    reveal_strlit("non-standard");
    assert("echo"@ != "silent"@) by { assert("echo"@[0] != "silent"@[0]); }
    assert("echo"@ != "non-standard"@) by { assert("echo"@[0] != "non-standard"@[0]); }
    assert("silent"@ != "non-standard"@) by { assert("silent"@[0] != "non-standard"@[0]); }
}

/// Classifies a burst reply: `silent`, `echo` or `non-standard`.
pub fn classify_reply(frame: &[u8], response: &Option<Vec<u8>>) -> (class: &'static str)
    ensures
        class@ == reply_class(frame@, reply_view(*response)),
{
    if crate::ble_sweep::is_echo(frame, response) {
        "echo"
    } else if response.is_none() {
        "silent"
    } else {
        "non-standard"
    }
}

/// A result worth a second look: classed `non-standard` or `echo`.
pub open spec fn is_interesting(r: ProbeRow) -> bool {
    r.class@ == "non-standard"@ || r.class@ == "echo"@
}

/// Indices of the interesting rows, in order.
pub fn interesting_rows(rows: &[ProbeRow]) -> (idx: Vec<usize>)
    ensures
        forall|k: int| 0 <= k < idx@.len() ==> #[trigger] idx@[k] < rows@.len() && is_interesting(rows@[idx@[k] as int]),
        forall|k: int, l: int| 0 <= k < l < idx@.len() ==> idx@[k] < idx@[l],
        forall|i: int| 0 <= i < rows@.len() && is_interesting(#[trigger] rows@[i]) ==> idx@.contains(i as usize),
{
    let mut idx: Vec<usize> = Vec::new();
    let mut i: usize = 0;
    while i < rows.len()
        invariant
            i <= rows@.len(),
            forall|k: int| 0 <= k < idx@.len() ==> #[trigger] idx@[k] < i && is_interesting(rows@[idx@[k] as int]),
            forall|k: int, l: int| 0 <= k < l < idx@.len() ==> idx@[k] < idx@[l],
            forall|j: int| 0 <= j < i && is_interesting(#[trigger] rows@[j]) ==> idx@.contains(j as usize),
        decreases rows.len() - i,
    {
        let class = rows[i].class.as_str();
        if text_eq(class, "non-standard") || text_eq(class, "echo") {
            let ghost old_idx = idx@;
            idx.push(i);
            assert forall|j: int| 0 <= j < i + 1 && is_interesting(#[trigger] rows@[j]) implies idx@.contains(j as usize) by {
                if j < i {
                    let w = choose|w: int| 0 <= w < old_idx.len() && old_idx[w] == j as usize;
                    assert(idx@[w] == j as usize);
                } else {
                    assert(idx@[idx@.len() - 1] == j as usize);
                }
            }
        }
        i = i + 1;
    }
    idx
}

/// One table line of the report.
pub open spec fn row_line(r: ProbeRow) -> Seq<char> {
    "| "@ + r.label@ + " | "@ + r.channel@ + " | `"@ + r.sent@ + "` | `"@ + r.response@ + "` | "@
        + r.class@ + " |\n"@
}

/// The table lines of all rows, in order.
pub open spec fn rows_table(rows: Seq<ProbeRow>) -> Seq<char>
    decreases rows.len(),
{
    if rows.len() == 0 {
        Seq::<char>::empty()
    } else {
        rows_table(rows.drop_last()) + row_line(rows.last())
    }
}

/// Title, device line and table header of the report.
pub open spec fn report_head(device: Seq<char>) -> Seq<char> {
    "# Jetpack BLE Probe Results\n\n- Device: `"@ + device + "`\n\n"@
        + "| label | channel | sent | response | class |\n"@
        + "| ----- | ------- | ---- | -------- | ----- |\n"@
}

/// Layout of the probe report: the header names the columns label,
/// channel, sent, response, class; each row adds one line with those fields
/// in those columns, in row order.
pub proof fn lemma_report_layout(device: Seq<char>, rows: Seq<ProbeRow>, r: ProbeRow)
    ensures
        report_head(device) == "# Jetpack BLE Probe Results\n\n- Device: `"@ + device
            + "`\n\n| label | channel | sent | response | class |\n| ----- | ------- | ---- | -------- | ----- |\n"@,
        rows_table(Seq::<ProbeRow>::empty()) == Seq::<char>::empty(),
        rows_table(rows.push(r)) == rows_table(rows) + ("| "@ + r.label@ + " | "@ + r.channel@
            + " | `"@ + r.sent@ + "` | `"@ + r.response@ + "` | "@ + r.class@ + " |\n"@),
{
    reveal_strlit("`\n\n");
    reveal_strlit("| label | channel | sent | response | class |\n");
    reveal_strlit("| ----- | ------- | ---- | -------- | ----- |\n");
    reveal_strlit("`\n\n| label | channel | sent | response | class |\n| ----- | ------- | ---- | -------- | ----- |\n");
    assert(rows.push(r).drop_last() =~= rows);
    assert(report_head(device) =~= "# Jetpack BLE Probe Results\n\n- Device: `"@ + device
        + "`\n\n| label | channel | sent | response | class |\n| ----- | ------- | ---- | -------- | ----- |\n"@);
    assert(rows_table(rows.push(r)) =~= rows_table(rows) + ("| "@ + r.label@ + " | "@ + r.channel@
        + " | `"@ + r.sent@ + "` | `"@ + r.response@ + "` | "@ + r.class@ + " |\n"@));
}

/// The markdown report of the probes.
pub fn format_results(device: &str, rows: &[ProbeRow]) -> (out: String)
    ensures
        out@ == report_head(device@) + rows_table(rows@),
{
    let mut out = String::from_str("# Jetpack BLE Probe Results\n\n- Device: `");
    out.append(device);
    out.append("`\n\n");
    out.append("| label | channel | sent | response | class |\n");
    out.append("| ----- | ------- | ---- | -------- | ----- |\n");
    assert(out@ =~= report_head(device@) + rows_table(rows@.take(0)));
    let mut i: usize = 0;
    while i < rows.len()
        invariant
            i <= rows.len(),
            out@ == report_head(device@) + rows_table(rows@.take(i as int)),
        decreases rows.len() - i,
    {
        let r = &rows[i];
        out.append("| ");
        out.append(r.label.as_str());
        out.append(" | ");
        out.append(r.channel.as_str());
        out.append(" | `");
        out.append(r.sent.as_str());
        out.append("` | `");
        out.append(r.response.as_str());
        out.append("` | ");
        out.append(r.class.as_str());
        out.append(" |\n");
        proof {
            assert(rows@.take(i + 1).drop_last() =~= rows@.take(i as int));
            assert(rows@.take(i + 1).last() == rows@[i as int]);
        }
        assert(out@ =~= report_head(device@) + rows_table(rows@.take(i + 1)));
        i = i + 1;
    }
    assert(rows@.take(rows.len() as int) =~= rows@);
    out
}

} // verus!
