//! The generic single-connection parameter grid: a zero-tail phase and an
//! `AA`-tail phase over opcodes 0x03..=0x10, which replies count as hits,
//! which probes are burst afterwards, and the markdown report.

use vstd::prelude::*;
use crate::crc::{aa_frame, frame_with_aa, is_uart_frame, lemma_frames_well_formed, AA_TAIL};
use crate::hex::{
    decimal, hex2, hex_text, hex_tokens, lemma_hex_round_trip, lemma_hex_search, parse_spaced_hex, push_decimal, push_hex2, reply_or,
    reply_text, reply_view, spaced_hex,
};
use crate::jetpack_sweep::probe_view;
use crate::text::{contains_text, text_contains, text_eq};

verus! {

/// Number of opcodes in each phase (0x03 through 0x10).
pub open spec fn opcode_count() -> int {
    14
}

/// Label of a zero-tail probe: `op_{opcode:02X}_m{mode}_i{intensity}`.
pub open spec fn zero_tail_label(opcode: u8, mode: u8, intensity: u8) -> Seq<char> {
    "op_"@ + hex2(opcode) + "_m"@ + decimal(mode as nat) + "_i"@ + decimal(intensity as nat)
}

/// Frame of a zero-tail probe: `55 op 00 00 mode intensity 00`.
pub open spec fn zero_tail_frame(opcode: u8, mode: u8, intensity: u8) -> Seq<u8> {
    seq![0x55u8, opcode, 0x00u8, 0x00u8, mode, intensity, 0x00u8]
}

/// The `k`-th zero-tail probe: opcodes 0x03..=0x10, then mode 1..=5, then
/// intensity 1..=5 (intensity fastest).
pub open spec fn zero_tail_entry(k: int) -> (Seq<char>, Seq<u8>) {
    let opcode = (3 + k / 25) as u8;
    let mode = ((k % 25) / 5 + 1) as u8;
    let intensity = (k % 5 + 1) as u8;
    (zero_tail_label(opcode, mode, intensity), zero_tail_frame(opcode, mode, intensity))
}

/// The `p4` values of the `AA`-tail phase.
pub open spec fn aa_p4_values() -> Seq<u8> {
    seq![0x01u8, 0x05u8]
}

/// The `p5` values of the `AA`-tail phase.
pub open spec fn aa_p5_values() -> Seq<u8> {
    seq![0x01u8, 0x05u8, 0xFFu8]
}

/// Label of an `AA`-tail probe: `aa_op_{opcode:02X}_{p4:02X}_{p5:02X}`.
pub open spec fn aa_tail_label(opcode: u8, p4: u8, p5: u8) -> Seq<char> {
    "aa_op_"@ + hex2(opcode) + "_"@ + hex2(p4) + "_"@ + hex2(p5)
}

/// The `k`-th `AA`-tail probe: opcodes 0x03..=0x10, then `p4` in
/// `[01, 05]`, then `p5` in `[01, 05, FF]` (`p5` fastest); the frame is
/// `55 op 00 00 p4 p5 AA`.
pub open spec fn aa_tail_entry(k: int) -> (Seq<char>, Seq<u8>) {
    let opcode = (3 + k / 6) as u8;
    let p4 = aa_p4_values()[(k % 6) / 3];
    let p5 = aa_p5_values()[k % 3];
    (aa_tail_label(opcode, p4, p5), aa_frame(seq![0x55u8, opcode, 0x00u8, 0x00u8, p4, p5]))
}

proof fn lemma_zero_tail_index(o: int, m: int, t: int)
    requires
        0 <= o < 14,
        1 <= m <= 5,
        1 <= t <= 5,
    ensures
        ({
            let k = 25 * o + 5 * (m - 1) + (t - 1);
            &&& k / 25 == o
            &&& (k % 25) / 5 + 1 == m
            &&& k % 5 + 1 == t
        }),
{
    let k = 25 * o + 5 * (m - 1) + (t - 1);
    assert(k / 25 == o && k % 25 == 5 * (m - 1) + (t - 1)) by (nonlinear_arith)
        requires
            k == 25 * o + 5 * (m - 1) + (t - 1),
            0 <= 5 * (m - 1) + (t - 1) < 25,
    ;
    assert((5 * (m - 1) + (t - 1)) / 5 == m - 1 && (5 * (m - 1) + (t - 1)) % 5 == t - 1)
        by (nonlinear_arith)
        requires
            0 <= t - 1 < 5,
            0 <= m - 1,
    ;
    assert(k % 5 == t - 1) by (nonlinear_arith)
        requires
            k == 25 * o + 5 * (m - 1) + (t - 1),
            0 <= t - 1 < 5,
            0 <= o,
            0 <= m - 1,
    ;
}

proof fn lemma_aa_tail_index(o: int, a: int, b: int)
    requires
        0 <= o < 14,
        0 <= a < 2,
        0 <= b < 3,
    ensures
        ({
            let k = 6 * o + 3 * a + b;
            &&& k / 6 == o
            &&& (k % 6) / 3 == a
            &&& k % 3 == b
        }),
{
    let k = 6 * o + 3 * a + b;
    assert(k / 6 == o && k % 6 == 3 * a + b) by (nonlinear_arith)
        requires
            k == 6 * o + 3 * a + b,
            0 <= 3 * a + b < 6,
    ;
    assert((3 * a + b) / 3 == a) by (nonlinear_arith)
        requires
            0 <= b < 3,
            0 <= a,
    ;
    assert(k % 3 == b) by (nonlinear_arith)
        requires
            k == 6 * o + 3 * a + b,
            0 <= b < 3,
            0 <= o,
            0 <= a,
    ;
}

fn zero_tail_probe(opcode: u8, mode: u8, intensity: u8) -> (e: (String, Vec<u8>))
    ensures
        probe_view(e) == (zero_tail_label(opcode, mode, intensity), zero_tail_frame(
            opcode,
            mode,
            intensity,
        )),
{
    let mut label = String::from_str("op_");
    push_hex2(&mut label, opcode);
    label.append("_m");
    push_decimal(&mut label, mode as u64);
    label.append("_i");
    push_decimal(&mut label, intensity as u64);
    let frame = vec![0x55, opcode, 0x00, 0x00, mode, intensity, 0x00];
    assert(frame@ =~= zero_tail_frame(opcode, mode, intensity));
    assert(label@ =~= zero_tail_label(opcode, mode, intensity));
    (label, frame)
}

fn aa_tail_probe(opcode: u8, p4: u8, p5: u8) -> (e: (String, Vec<u8>))
    ensures
        probe_view(e) == (aa_tail_label(opcode, p4, p5), aa_frame(
            seq![0x55u8, opcode, 0x00u8, 0x00u8, p4, p5],
        )),
{
    let mut label = String::from_str("aa_op_");
    push_hex2(&mut label, opcode);
    label.append("_");
    push_hex2(&mut label, p4);
    label.append("_");
    push_hex2(&mut label, p5);
    let frame = frame_with_aa([0x55, opcode, 0x00, 0x00, p4, p5]);
    proof {
        assert([0x55u8, opcode, 0x00u8, 0x00u8, p4, p5]@ =~= seq![
            0x55u8,
            opcode,
            0x00u8,
            0x00u8,
            p4,
            p5,
        ]);
    }
    let bytes = vstd::slice::slice_to_vec(frame.as_slice());
    assert(label@ =~= aa_tail_label(opcode, p4, p5));
    (label, bytes)
}

/// The labelled frames of the zero-tail phase (Klitty-style and similar UART
/// OEMs), in the order they are probed.
pub fn zero_tail_plan() -> (plan: Vec<(String, Vec<u8>)>)
    ensures
        plan@.len() == 25 * opcode_count(),
        forall|k: int|
            0 <= k < 25 * opcode_count() ==> probe_view(#[trigger] plan@[k]) == zero_tail_entry(k),
{
    let mut plan: Vec<(String, Vec<u8>)> = Vec::new();
    let mut opcode: u8 = 0x03;
    while opcode <= 0x10
        invariant
            3 <= opcode <= 0x11,
            plan@.len() == 25 * (opcode - 3),
            forall|k: int|
                0 <= k < plan@.len() ==> probe_view(#[trigger] plan@[k]) == zero_tail_entry(k),
        decreases 0x11 - opcode,
    {
        let mut mode: u8 = 1;
        while mode <= 5
            invariant
                3 <= opcode <= 0x10,
                1 <= mode <= 6,
                plan@.len() == 25 * (opcode - 3) + 5 * (mode - 1),
                forall|k: int|
                    0 <= k < plan@.len() ==> probe_view(#[trigger] plan@[k]) == zero_tail_entry(k),
            decreases 6 - mode,
        {
            let mut intensity: u8 = 1;
            while intensity <= 5
                invariant
                    3 <= opcode <= 0x10,
                    1 <= mode <= 5,
                    1 <= intensity <= 6,
                    plan@.len() == 25 * (opcode - 3) + 5 * (mode - 1) + (intensity - 1),
                    forall|k: int|
                        0 <= k < plan@.len() ==> probe_view(#[trigger] plan@[k])
                            == zero_tail_entry(k),
                decreases 6 - intensity,
            {
                proof {
                    lemma_zero_tail_index(opcode - 3, mode as int, intensity as int);
                }
                plan.push(zero_tail_probe(opcode, mode, intensity));
                intensity = intensity + 1;
            }
            mode = mode + 1;
        }
        opcode = opcode + 1;
    }
    plan
}

/// The labelled frames of the `AA`-tail phase (common on Svakom/KooSync-class
/// devices), in the order they are probed.
pub fn aa_tail_plan() -> (plan: Vec<(String, Vec<u8>)>)
    ensures
        plan@.len() == 6 * opcode_count(),
        forall|k: int|
            0 <= k < 6 * opcode_count() ==> probe_view(#[trigger] plan@[k]) == aa_tail_entry(k),
{
    let p4s: [u8; 2] = [0x01, 0x05];
    let p5s: [u8; 3] = [0x01, 0x05, 0xFF];
    assert(p4s@ =~= aa_p4_values());
    assert(p5s@ =~= aa_p5_values());
    let mut plan: Vec<(String, Vec<u8>)> = Vec::new();
    let mut opcode: u8 = 0x03;
    while opcode <= 0x10
        invariant
            3 <= opcode <= 0x11,
            p4s@ == aa_p4_values(),
            p5s@ == aa_p5_values(),
            plan@.len() == 6 * (opcode - 3),
            forall|k: int|
                0 <= k < plan@.len() ==> probe_view(#[trigger] plan@[k]) == aa_tail_entry(k),
        decreases 0x11 - opcode,
    {
        let mut a: usize = 0;
        while a < 2
            invariant
                3 <= opcode <= 0x10,
                a <= 2,
                p4s@ == aa_p4_values(),
                p5s@ == aa_p5_values(),
                plan@.len() == 6 * (opcode - 3) + 3 * a,
                forall|k: int|
                    0 <= k < plan@.len() ==> probe_view(#[trigger] plan@[k]) == aa_tail_entry(k),
            decreases 2 - a,
        {
            let mut b: usize = 0;
            while b < 3
                invariant
                    3 <= opcode <= 0x10,
                    a < 2,
                    b <= 3,
                    p4s@ == aa_p4_values(),
                    p5s@ == aa_p5_values(),
                    plan@.len() == 6 * (opcode - 3) + 3 * a + b,
                    forall|k: int|
                        0 <= k < plan@.len() ==> probe_view(#[trigger] plan@[k])
                            == aa_tail_entry(k),
                decreases 3 - b,
            {
                proof {
                    lemma_aa_tail_index(opcode - 3, a as int, b as int);
                }
                plan.push(aa_tail_probe(opcode, p4s[a], p5s[b]));
                b = b + 1;
            }
            a = a + 1;
        }
        opcode = opcode + 1;
    }
    plan
}


/// Each zero-tail probe `k` (k < 350) sends
/// `55 op 00 00 mode intensity 00` with op = 0x03 + k / 25, mode =
/// (k % 25) / 5 + 1 and intensity = k % 5 + 1, and its label names those
/// bytes: `op_{op:02X}_m{mode}_i{intensity}`.
pub proof fn lemma_zero_tail_values()
    ensures
        forall|k: int|
            0 <= k < 350 ==> {
                let e = #[trigger] zero_tail_entry(k);
                &&& e.1 == seq![
                    0x55u8,
                    (3 + k / 25) as u8,
                    0x00u8,
                    0x00u8,
                    ((k % 25) / 5 + 1) as u8,
                    (k % 5 + 1) as u8,
                    0x00u8,
                ]
                &&& e.0 == "op_"@ + hex2(e.1[1]) + "_m"@ + decimal(e.1[4] as nat) + "_i"@ + decimal(
                    e.1[5] as nat,
                )
            },
{
    assert forall|k: int| 0 <= k < 350 implies {
        let e = #[trigger] zero_tail_entry(k);
        &&& e.1 == seq![
            0x55u8,
            (3 + k / 25) as u8,
            0x00u8,
            0x00u8,
            ((k % 25) / 5 + 1) as u8,
            (k % 5 + 1) as u8,
            0x00u8,
        ]
        &&& e.0 == "op_"@ + hex2(e.1[1]) + "_m"@ + decimal(e.1[4] as nat) + "_i"@ + decimal(
            e.1[5] as nat,
        )
    } by {
        let e = zero_tail_entry(k);
        assert(e.1 =~= seq![
            0x55u8,
            (3 + k / 25) as u8,
            0x00u8,
            0x00u8,
            ((k % 25) / 5 + 1) as u8,
            (k % 5 + 1) as u8,
            0x00u8,
        ]);
    }
}

/// Each `AA`-tail probe `k` (k < 84) sends `55 op 00 00 p4 p5 AA` with
/// op = 0x03 + k / 6, p4 = 01 then 05 (three probes each), p5 = 01, 05, FF
/// in turn, and its label names those bytes: `aa_op_{op:02X}_{p4:02X}_{p5:02X}`.
pub proof fn lemma_aa_tail_values()
    ensures
        forall|k: int|
            0 <= k < 84 ==> {
                let e = #[trigger] aa_tail_entry(k);
                &&& e.1 == seq![
                    0x55u8,
                    (3 + k / 6) as u8,
                    0x00u8,
                    0x00u8,
                    if k % 6 < 3 { 0x01u8 } else { 0x05u8 },
                    if k % 3 == 0 { 0x01u8 } else if k % 3 == 1 { 0x05u8 } else { 0xFFu8 },
                    0xAAu8,
                ]
                &&& e.0 == "aa_op_"@ + hex2(e.1[1]) + "_"@ + hex2(e.1[4]) + "_"@ + hex2(e.1[5])
            },
{
    assert forall|k: int| 0 <= k < 84 implies {
        let e = #[trigger] aa_tail_entry(k);
        &&& e.1 == seq![
            0x55u8,
            (3 + k / 6) as u8,
            0x00u8,
            0x00u8,
            if k % 6 < 3 { 0x01u8 } else { 0x05u8 },
            if k % 3 == 0 { 0x01u8 } else if k % 3 == 1 { 0x05u8 } else { 0xFFu8 },
            0xAAu8,
        ]
        &&& e.0 == "aa_op_"@ + hex2(e.1[1]) + "_"@ + hex2(e.1[4]) + "_"@ + hex2(e.1[5])
    } by {
        let e = aa_tail_entry(k);
        assert(0 <= k % 6 < 6);
        assert((k % 6) / 3 == 0 <==> k % 6 < 3);
        assert(0 <= k % 3 < 3);
        assert(e.1 =~= seq![
            0x55u8,
            (3 + k / 6) as u8,
            0x00u8,
            0x00u8,
            if k % 6 < 3 { 0x01u8 } else { 0x05u8 },
            if k % 3 == 0 { 0x01u8 } else if k % 3 == 1 { 0x05u8 } else { 0xFFu8 },
            0xAAu8,
        ]);
    }
}

/// Every frame of both phases is a UART frame; zero-tail frames end in
/// `0x00` and `AA`-tail frames in `0xAA`.
pub proof fn lemma_grid_frames()
    ensures
        forall|k: int|
            0 <= k < 25 * opcode_count() ==> is_uart_frame(#[trigger] zero_tail_entry(k).1)
                && zero_tail_entry(k).1[6] == 0x00,
        forall|k: int|
            0 <= k < 6 * opcode_count() ==> is_uart_frame(#[trigger] aa_tail_entry(k).1)
                && aa_tail_entry(k).1[6] == AA_TAIL,
{
    assert forall|k: int| 0 <= k < 6 * opcode_count() implies is_uart_frame(
        #[trigger] aa_tail_entry(k).1,
    ) && aa_tail_entry(k).1[6] == AA_TAIL by {
        let opcode = (3 + k / 6) as u8;
        let p4 = aa_p4_values()[(k % 6) / 3];
        let p5 = aa_p5_values()[k % 3];
        lemma_frames_well_formed(seq![0x55u8, opcode, 0x00u8, 0x00u8, p4, p5]);
    }
}

/// Every recorded grid row reads back: its sent text is the spaced hex of
/// some frame. Then each burst after the grid sends exactly the frame that
/// was recorded for that row.
pub proof fn lemma_burst_reads_back(rows: Seq<Row>, frames: Seq<Seq<u8>>)
    requires
        rows.len() == frames.len(),
        forall|k: int| 0 <= k < rows.len() ==> (#[trigger] rows[k]).sent@ == hex_text(frames[k]),
    ensures
        forall|k: int|
            0 <= k < burst_rows(rows).len() ==> exists|j: int|
                0 <= j < rows.len() && rows[j] == burst_rows(rows)[k] && (#[trigger] burst_entry(
                    burst_rows(rows)[k],
                )).1 == Some(frames[j]),
{
    lemma_answering_members(rows);
    let a = answering_rows(rows);
    assert forall|k: int| 0 <= k < burst_rows(rows).len() implies exists|j: int|
        0 <= j < rows.len() && rows[j] == burst_rows(rows)[k] && (#[trigger] burst_entry(
            burst_rows(rows)[k],
        )).1 == Some(frames[j]) by {
        assert(burst_rows(rows)[k] == a[k]);
        let j = choose|j: int| 0 <= j < rows.len() && rows[j] == a[k];
        lemma_hex_round_trip(frames[j]);
    }
}

/// Every answering row is one of the rows.
proof fn lemma_answering_members(rows: Seq<Row>)
    ensures
        forall|k: int|
            0 <= k < answering_rows(rows).len() ==> exists|j: int|
                0 <= j < rows.len() && rows[j] == #[trigger] answering_rows(rows)[k],
    decreases rows.len(),
{
    if rows.len() > 0 {
        let prev = rows.drop_last();
        lemma_answering_members(prev);
        assert forall|k: int| 0 <= k < answering_rows(rows).len() implies exists|j: int|
            0 <= j < rows.len() && rows[j] == #[trigger] answering_rows(rows)[k] by {
            if k < answering_rows(prev).len() {
                let j = choose|j: int| 0 <= j < prev.len() && prev[j] == answering_rows(prev)[k];
                assert(rows[j] == prev[j]);
            } else {
                assert(rows[rows.len() - 1] == rows.last());
            }
        }
    }
}

/// One probe of the grid as recorded in the report.
pub struct Row {
    pub label: String,
    pub sent: String,
    pub response: String,
}

/// What the grid records of a probe: the sent frame and the reply as spaced
/// hex, `(silent)` when there was no reply.
pub fn grid_row(label: &str, frame: &[u8], response: &Option<Vec<u8>>) -> (row: Row)
    ensures
        row.label@ == label@,
        row.sent@ == hex_text(frame@),
        row.response@ == reply_text(reply_view(*response), "(silent)"@),
{
    Row { label: String::from_str(label), sent: spaced_hex(frame), response: reply_or(response, "(silent)") }
}

/// The reply repeats the sent frame byte for byte.
pub fn is_echo(frame: &[u8], response: &Option<Vec<u8>>) -> (r: bool)
    ensures
        r == (reply_view(*response) == Some(frame@)),
{
    match response {
        None => false,
        Some(bytes) => {
            if bytes.len() != frame.len() {
                return false;
            }
            let mut i: usize = 0;
            while i < frame.len()
                invariant
                    i <= frame@.len(),
                    bytes@.len() == frame@.len(),
                    reply_view(*response) == Some(bytes@),
                    forall|k: int| 0 <= k < i ==> bytes@[k] == frame@[k],
                decreases frame.len() - i,
            {
                if bytes[i] != frame[i] {
                    assert(bytes@[i as int] != frame@[i as int]);
                    assert(bytes@ != frame@);
                    assert(reply_view(*response) == Some(bytes@));
                    return false;
                }
                i = i + 1;
            }
            assert(bytes@ =~= frame@);
            true
        },
    }
}

/// A recorded reply holds the `55 FF 01` error frame.
pub open spec fn is_nack_text(response: Seq<char>) -> bool {
    contains_text(response, "55 FF 01"@)
}

/// The bytes hold `55 FF 01` somewhere.
pub open spec fn holds_nack_bytes(b: Seq<u8>) -> bool {
    exists|m: int| 0 <= m && m + 3 <= b.len() && #[trigger] b.subrange(m, m + 3) == seq![
        0x55u8,
        0xFFu8,
        0x01u8,
    ]
}

/// The text test for an error frame on a recorded reply is a test on its
/// bytes: the spaced hex holds `55 FF 01` exactly when the bytes hold
/// `0x55, 0xFF, 0x01` in a row.
pub proof fn lemma_nack_on_bytes(b: Seq<u8>)
    ensures
        is_nack_text(hex_text(b)) <==> holds_nack_bytes(b),
{
    let p = seq![0x55u8, 0xFFu8, 0x01u8];
    reveal_strlit("55 FF 01");
    assert(p.drop_first().drop_first() =~= seq![0x01u8]);
    assert(p.drop_first() =~= seq![0xFFu8, 0x01u8]);
    assert(hex_text(seq![0x01u8]) == hex2(0x01));
    assert(hex_text(seq![0xFFu8, 0x01u8]) == hex2(0xFF) + seq![' '] + hex2(0x01));
    assert(hex_text(p) == hex2(0x55) + seq![' '] + hex_text(seq![0xFFu8, 0x01u8]));
    assert("55 FF 01"@ =~= hex_text(p));
    lemma_hex_search(b, p);
}

/// Whether a recorded reply holds the `55 FF 01` error frame.
pub fn is_nack(response: &str) -> (r: bool)
    ensures
        r == is_nack_text(response@),
{
    text_contains(response, "55 FF 01")
}

/// A zero-tail probe worth printing: a reply that is neither an error
/// frame, nor an echo of the frame, nor silence.
pub open spec fn is_zero_tail_hit_spec(frame: Seq<u8>, response: Option<Seq<u8>>) -> bool {
    let text = reply_text(response, "(silent)"@);
    !is_nack_text(text) && response != Some(frame) && text != "(silent)"@
}

/// The grid's hit tests are tests on the reply bytes: a zero-tail probe is
/// a hit exactly when a reply came that differs from the sent frame and
/// never holds `55 FF 01`; an `AA`-tail probe is a hit exactly when a reply
/// came that never holds `55 FF 01`.
pub proof fn lemma_grid_hits_on_bytes(frame: Seq<u8>, reply: Option<Seq<u8>>)
    ensures
        is_zero_tail_hit_spec(frame, reply) <==> (reply matches Some(b) && b != frame
            && !holds_nack_bytes(b)),
        is_aa_tail_hit_spec(reply_text(reply, "(silent)"@)) <==> (reply matches Some(b)
            && !holds_nack_bytes(b)),
{
    reveal_strlit("(silent)");
    match reply {
        Some(b) => {
            lemma_nack_on_bytes(b);
            if b.len() > 0 {
                crate::hex::lemma_hex_text_index(b);
                assert(hex_text(b)[0] == crate::hex::hex_digit(b[0] as int / 16));
                assert(hex_text(b)[0] != "(silent)"@[0]);
            } else {
                assert(hex_text(b).len() == 0);
            }
        },
        None => {
            reveal_strlit("55 FF 01");
            assert(!contains_text("(silent)"@, "55 FF 01"@)) by {
                if contains_text("(silent)"@, "55 FF 01"@) {
                    let i = choose|i: int| crate::text::occurs_at("(silent)"@, "55 FF 01"@, i);
                    assert("(silent)"@.subrange(i, i + 8)[0] == "(silent)"@[i]);
                }
            }
        },
    }
}

/// Whether a zero-tail probe is printed as a `HIT`.
pub fn is_zero_tail_hit(frame: &[u8], response: &Option<Vec<u8>>) -> (r: bool)
    ensures
        r == is_zero_tail_hit_spec(frame@, reply_view(*response)),
{
    let text = reply_or(response, "(silent)");
    let echo = is_echo(frame, response);
    let nack = is_nack(text.as_str());
    !nack && !echo && !text_eq(text.as_str(), "(silent)")
}

/// An `AA`-tail probe worth printing: neither an error frame nor silence.
pub open spec fn is_aa_tail_hit_spec(response: Seq<char>) -> bool {
    !is_nack_text(response) && response != "(silent)"@
}

/// Whether an `AA`-tail probe is printed.
pub fn is_aa_tail_hit(row: &Row) -> (r: bool)
    ensures
        r == is_aa_tail_hit_spec(row.response@),
{
    !is_nack(row.response.as_str()) && !text_eq(row.response.as_str(), "(silent)")
}

/// A recorded probe that answered with something other than its own frame.
pub open spec fn is_burst_candidate(r: Row) -> bool {
    r.response@ != "(silent)"@ && r.response@ != r.sent@
}

/// The rows that answered with something other than their own frame, in order.
pub open spec fn answering_rows(rows: Seq<Row>) -> Seq<Row>
    decreases rows.len(),
{
    if rows.len() == 0 {
        Seq::<Row>::empty()
    } else if is_burst_candidate(rows.last()) {
        answering_rows(rows.drop_last()).push(rows.last())
    } else {
        answering_rows(rows.drop_last())
    }
}

/// The rows that are burst after the grid: the first ten answering rows.
pub open spec fn burst_rows(rows: Seq<Row>) -> Seq<Row> {
    let a = answering_rows(rows);
    if a.len() <= 10 {
        a
    } else {
        a.take(10)
    }
}

/// Which rows are burst after the grid: going through the rows in order, a
/// row is kept exactly when its response text is not `(silent)` and differs
/// from its sent text, whatever else the response holds; the burst takes
/// the first ten rows kept (all of them when fewer).
pub proof fn lemma_burst_selection(rows: Seq<Row>, r: Row)
    ensures
        answering_rows(Seq::<Row>::empty()) == Seq::<Row>::empty(),
        answering_rows(rows.push(r)) == if r.response@ != "(silent)"@ && r.response@ != r.sent@ {
            answering_rows(rows).push(r)
        } else {
            answering_rows(rows)
        },
        burst_rows(rows).len() == if answering_rows(rows).len() < 10 {
            answering_rows(rows).len()
        } else {
            10
        },
        forall|k: int| 0 <= k < burst_rows(rows).len() ==> #[trigger] burst_rows(rows)[k] == answering_rows(rows)[k],
{
    assert(rows.push(r).drop_last() =~= rows);
    assert(rows.push(r).last() == r);
}

/// Label and the bytes read back from the sent text of a burst row.
pub open spec fn burst_entry(r: Row) -> (Seq<char>, Option<Seq<u8>>) {
    (r.label@, hex_tokens(r.sent@))
}

/// The view of one chosen burst.
pub open spec fn burst_view(e: (String, Option<Vec<u8>>)) -> (Seq<char>, Option<Seq<u8>>) {
    (e.0@, reply_view(e.1))
}

/// Answering rows of a longer list extend those of a prefix.
proof fn lemma_answering_prefix(rows: Seq<Row>, i: int)
    requires
        0 <= i <= rows.len(),
    ensures
        answering_rows(rows.take(i)).len() <= answering_rows(rows).len(),
        answering_rows(rows.take(i)) == answering_rows(rows).take(
            answering_rows(rows.take(i)).len() as int,
        ),
    decreases rows.len() - i,
{
    if i == rows.len() {
        assert(rows.take(i) =~= rows);
        assert(answering_rows(rows).take(answering_rows(rows).len() as int) =~= answering_rows(
            rows,
        ));
    } else {
        lemma_answering_prefix(rows, i + 1);
        let p = rows.take(i + 1);
        assert(p.drop_last() =~= rows.take(i));
        let a_i = answering_rows(rows.take(i));
        let a_i1 = answering_rows(p);
        let a = answering_rows(rows);
        if is_burst_candidate(p.last()) {
            assert(a_i1 == a_i.push(p.last()));
            assert(a_i =~= a_i1.take(a_i.len() as int));
            assert(a.take(a_i1.len() as int).take(a_i.len() as int) =~= a.take(a_i.len() as int));
        } else {
            assert(a_i1 == a_i);
        }
    }
}

/// The probes that are burst after the grid: the label of each of the first
/// ten rows whose reply was neither silence nor an echo of the sent text,
/// with the bytes read back from its sent text (`None` where that text does
/// not read back as hex bytes).
pub fn burst_candidates(rows: &[Row]) -> (chosen: Vec<(String, Option<Vec<u8>>)>)
    ensures
        chosen@.len() == burst_rows(rows@).len(),
        forall|k: int|
            0 <= k < chosen@.len() ==> burst_view(#[trigger] chosen@[k]) == burst_entry(
                burst_rows(rows@)[k],
            ),
{
    let mut chosen: Vec<(String, Option<Vec<u8>>)> = Vec::new();
    let mut i: usize = 0;
    while i < rows.len() && chosen.len() < 10
        invariant
            i <= rows@.len(),
            chosen@.len() == answering_rows(rows@.take(i as int)).len(),
            chosen@.len() <= 10,
            forall|k: int|
                0 <= k < chosen@.len() ==> burst_view(#[trigger] chosen@[k]) == burst_entry(
                    answering_rows(rows@.take(i as int))[k],
                ),
        decreases rows.len() - i,
    {
        let r = &rows[i];
        proof {
            assert(rows@.take(i + 1).drop_last() =~= rows@.take(i as int));
            assert(rows@.take(i + 1).last() == rows@[i as int]);
        }
        if !text_eq(r.response.as_str(), "(silent)") && !text_eq(
            r.response.as_str(),
            r.sent.as_str(),
        ) {
            let bytes = parse_spaced_hex(r.sent.as_str());
            chosen.push((r.label.clone(), bytes));
        }
        i = i + 1;
    }
    proof {
        lemma_answering_prefix(rows@, i as int);
        let a = answering_rows(rows@);
        let ai = answering_rows(rows@.take(i as int));
        if i == rows.len() {
            assert(rows@.take(i as int) =~= rows@);
        } else {
            assert(ai.len() == 10);
            assert(burst_rows(rows@) =~= ai);
        }
    }
    chosen
}

/// One table line of the report.
pub open spec fn row_line(r: Row) -> Seq<char> {
    "| "@ + r.label@ + " | `"@ + r.sent@ + "` | `"@ + r.response@ + "` |\n"@
}

/// The table lines of all rows, in order.
pub open spec fn rows_table(rows: Seq<Row>) -> Seq<char>
    decreases rows.len(),
{
    if rows.len() == 0 {
        Seq::<char>::empty()
    } else {
        rows_table(rows.drop_last()) + row_line(rows.last())
    }
}

/// Title, device line and table header of the report.
pub open spec fn report_head(device: Seq<char>) -> Seq<char> {
    "# BLE Sweep Results\n\n- Device: `"@ + device + "`\n\n"@ + "| label | sent | response |\n"@
        + "| ----- | ---- | -------- |\n"@
}

/// Layout of the grid report: the header names the columns label, sent,
/// response; each row adds one line with its label, its sent text and its
/// response text in those columns, in row order.
pub proof fn lemma_report_layout(device: Seq<char>, rows: Seq<Row>, r: Row)
    ensures
        report_head(device) == "# BLE Sweep Results\n\n- Device: `"@ + device
            + "`\n\n| label | sent | response |\n| ----- | ---- | -------- |\n"@,
        rows_table(Seq::<Row>::empty()) == Seq::<char>::empty(),
        rows_table(rows.push(r)) == rows_table(rows) + ("| "@ + r.label@ + " | `"@ + r.sent@
            + "` | `"@ + r.response@ + "` |\n"@),
{
    reveal_strlit("`\n\n");
    reveal_strlit("| label | sent | response |\n");
    reveal_strlit("| ----- | ---- | -------- |\n");
    reveal_strlit("`\n\n| label | sent | response |\n| ----- | ---- | -------- |\n");
    assert(rows.push(r).drop_last() =~= rows);
    assert(report_head(device) =~= "# BLE Sweep Results\n\n- Device: `"@ + device
        + "`\n\n| label | sent | response |\n| ----- | ---- | -------- |\n"@);
    assert(rows_table(rows.push(r)) =~= rows_table(rows) + ("| "@ + r.label@ + " | `"@ + r.sent@
        + "` | `"@ + r.response@ + "` |\n"@));
}

/// The markdown report of the grid.
pub fn format_sweep(device: &str, rows: &[Row]) -> (out: String)
    ensures
        out@ == report_head(device@) + rows_table(rows@),
{
    let mut out = String::from_str("# BLE Sweep Results\n\n- Device: `");
    out.append(device);
    out.append("`\n\n");
    out.append("| label | sent | response |\n");
    out.append("| ----- | ---- | -------- |\n");
    assert(out@ =~= report_head(device@) + rows_table(rows@.take(0)));
    let mut i: usize = 0;
    while i < rows.len()
        invariant
            i <= rows.len(),
            out@ == report_head(device@) + rows_table(rows@.take(i as int)),
        decreases rows.len() - i,
    {
        let r = &rows[i];
        out.append("| ");
        out.append(r.label.as_str());
        out.append(" | `");
        out.append(r.sent.as_str());
        out.append("` | `");
        out.append(r.response.as_str());
        out.append("` |\n");
        proof {
            assert(rows@.take(i + 1).drop_last() =~= rows@.take(i as int));
            assert(rows@.take(i + 1).last() == rows@[i as int]);
        }
        assert(out@ =~= report_head(device@) + rows_table(rows@.take(i + 1)));
        i = i + 1;
    }
    assert(rows@.take(rows.len() as int) =~= rows@);
    out
}

} // verus!
