//! The two frame tails of the 7-byte UART protocol `55 <cmd> <p0> <p1>
//! <p2> <p3> <tail>`: a fixed `0xAA` byte, and the 8-bit check byte
//! ("CRC-8 C2") over the six body bytes.

use vstd::prelude::*;

verus! {

/// Generator of the register update (applied MSB first).
pub const CRC_POLY: u8 = 0xF0;

/// Register value before the first body byte.
pub const CRC_INIT: u8 = 0xFF;

/// Value XOR-ed into the bit-reversed register to give the tail byte.
pub const CRC_XOR_OUT: u8 = 0xFF;

/// Fixed tail byte of the "AA" frame family.
pub const AA_TAIL: u8 = 0xAA;

/// One MSB-first shift of the register.
pub open spec fn crc_shift(c: u8) -> u8 {
    if c & 0x80u8 == 0x80u8 {
        (c << 1u8) ^ CRC_POLY
    } else {
        c << 1u8
    }
}

/// `n` shifts of the register.
pub open spec fn crc_shifts(c: u8, n: nat) -> u8
    decreases n,
{
    if n == 0 {
        c
    } else {
        crc_shift(crc_shifts(c, (n - 1) as nat))
    }
}

/// The register after one more byte.
pub open spec fn crc_feed(c: u8, b: u8) -> u8 {
    crc_shifts(c ^ b, 8)
}

/// The register after all of `data`, starting from `CRC_INIT`.
pub open spec fn crc_register(data: Seq<u8>) -> u8
    decreases data.len(),
{
    if data.len() == 0 {
        CRC_INIT
    } else {
        crc_feed(crc_register(data.drop_last()), data.last())
    }
}

/// The byte with its bit order reversed.
pub open spec fn reflect8(x: u8) -> u8 {
    ((x & 0x01u8) << 7u8) | ((x & 0x02u8) << 5u8) | ((x & 0x04u8) << 3u8) | ((x & 0x08u8) << 1u8)
        | ((x & 0x10u8) >> 1u8) | ((x & 0x20u8) >> 3u8) | ((x & 0x40u8) >> 5u8) | ((x
        & 0x80u8) >> 7u8)
}

/// The check byte of `data`.
pub open spec fn crc8(data: Seq<u8>) -> u8 {
    reflect8(crc_register(data)) ^ CRC_XOR_OUT
}

/// A body followed by its check byte.
pub open spec fn crc_frame(body: Seq<u8>) -> Seq<u8> {
    body.push(crc8(body))
}

/// A body followed by the fixed `0xAA` tail.
pub open spec fn aa_frame(body: Seq<u8>) -> Seq<u8> {
    body.push(AA_TAIL)
}

/// A frame of the UART protocol: seven bytes starting with the `0x55` header.
pub open spec fn is_uart_frame(f: Seq<u8>) -> bool {
    f.len() == 7 && f[0] == 0x55
}

/// A 7-byte frame whose last byte is the check byte of the six before it.
pub open spec fn crc_checks(f: Seq<u8>) -> bool {
    f.len() == 7 && f[6] == crc8(f.take(6))
}

/// A CRC-framed body keeps its six bytes and checks out; an `AA`-framed
/// body keeps its six bytes and ends in `0xAA`. Both are UART frames when
/// the body starts with the header.
pub proof fn lemma_frames_well_formed(body: Seq<u8>)
    requires
        body.len() == 6,
    ensures
        crc_frame(body).take(6) == body,
        crc_checks(crc_frame(body)),
        aa_frame(body).take(6) == body,
        aa_frame(body)[6] == AA_TAIL,
        body[0] == 0x55 ==> is_uart_frame(crc_frame(body)) && is_uart_frame(aa_frame(body)),
{
    assert(crc_frame(body).take(6) =~= body);
    assert(aa_frame(body).take(6) =~= body);
}

/// The register after six bytes, written out.
proof fn lemma_register_six(a: u8, b: u8, c: u8, d: u8, e: u8, f: u8)
    ensures
        crc_register(seq![a, b, c, d, e, f]) == crc_feed(
            crc_feed(crc_feed(crc_feed(crc_feed(crc_feed(CRC_INIT, a), b), c), d), e),
            f,
        ),
{
    let s6 = seq![a, b, c, d, e, f];
    let s5 = seq![a, b, c, d, e];
    let s4 = seq![a, b, c, d];
    let s3 = seq![a, b, c];
    let s2 = seq![a, b];
    let s1 = seq![a];
    assert(s6.drop_last() =~= s5);
    assert(s5.drop_last() =~= s4);
    assert(s4.drop_last() =~= s3);
    assert(s3.drop_last() =~= s2);
    assert(s2.drop_last() =~= s1);
    assert(s1.drop_last() =~= Seq::<u8>::empty());
    assert(s1.last() == a && s2.last() == b && s3.last() == c);
    assert(s4.last() == d && s5.last() == e && s6.last() == f);
    assert(crc_register(Seq::<u8>::empty()) == CRC_INIT);
    assert(crc_register(s1) == crc_feed(CRC_INIT, a));
    assert(crc_register(s2) == crc_feed(crc_register(s1), b));
    assert(crc_register(s3) == crc_feed(crc_register(s2), c));
    assert(crc_register(s4) == crc_feed(crc_register(s3), d));
    assert(crc_register(s5) == crc_feed(crc_register(s4), e));
    assert(crc_register(s6) == crc_feed(crc_register(s5), f));
}

/// The check bytes of every CRC-tailed command confirmed on the device
/// (battery query, status query, stop, direct stretch levels, M-mode
/// presets at travel 1, 5 and 10).
pub proof fn lemma_confirmed_check_bytes()
    ensures
        crc8(seq![0x55u8, 0x02u8, 0x00u8, 0x00u8, 0x00u8, 0x00u8]) == 0xFCu8,
        crc8(seq![0x55u8, 0x08u8, 0x00u8, 0x00u8, 0x01u8, 0x01u8]) == 0xFCu8,
        crc8(seq![0x55u8, 0x08u8, 0x00u8, 0x00u8, 0x01u8, 0x02u8]) == 0xFBu8,
        crc8(seq![0x55u8, 0x08u8, 0x00u8, 0x00u8, 0x02u8, 0x03u8]) == 0xF7u8,
        crc8(seq![0x55u8, 0x08u8, 0x00u8, 0x00u8, 0x03u8, 0x04u8]) == 0xF6u8,
        crc8(seq![0x55u8, 0x08u8, 0x00u8, 0x00u8, 0x04u8, 0x03u8]) == 0xF9u8,
        crc8(seq![0x55u8, 0x08u8, 0x00u8, 0x00u8, 0x05u8, 0x06u8]) == 0xF0u8,
        crc8(seq![0x55u8, 0x08u8, 0x00u8, 0x00u8, 0x06u8, 0x07u8]) == 0xFCu8,
        crc8(seq![0x55u8, 0x08u8, 0x00u8, 0x00u8, 0x07u8, 0x08u8]) == 0xFFu8,
        crc8(seq![0x55u8, 0x08u8, 0x00u8, 0x00u8, 0x08u8, 0x09u8]) == 0xF4u8,
        crc8(seq![0x55u8, 0x08u8, 0x00u8, 0x00u8, 0x08u8, 0x0Au8]) == 0xF3u8,
        crc8(seq![0x55u8, 0x08u8, 0x00u8, 0x01u8, 0x00u8, 0x00u8]) == 0xF9u8,
        crc8(seq![0x55u8, 0x08u8, 0x00u8, 0x03u8, 0x01u8, 0x01u8]) == 0xF0u8,
        crc8(seq![0x55u8, 0x08u8, 0x00u8, 0x03u8, 0x01u8, 0x05u8]) == 0xF4u8,
        crc8(seq![0x55u8, 0x08u8, 0x00u8, 0x03u8, 0x01u8, 0x0Au8]) == 0xF5u8,
        crc8(seq![0x55u8, 0x08u8, 0x00u8, 0x03u8, 0x02u8, 0x01u8]) == 0xF3u8,
        crc8(seq![0x55u8, 0x08u8, 0x00u8, 0x03u8, 0x02u8, 0x05u8]) == 0xF7u8,
        crc8(seq![0x55u8, 0x08u8, 0x00u8, 0x03u8, 0x02u8, 0x0Au8]) == 0xF6u8,
        crc8(seq![0x55u8, 0x08u8, 0x00u8, 0x03u8, 0x03u8, 0x01u8]) == 0xF1u8,
        crc8(seq![0x55u8, 0x08u8, 0x00u8, 0x03u8, 0x03u8, 0x05u8]) == 0xF5u8,
        crc8(seq![0x55u8, 0x08u8, 0x00u8, 0x03u8, 0x03u8, 0x0Au8]) == 0xF4u8,
        crc8(seq![0x55u8, 0x08u8, 0x00u8, 0x03u8, 0x04u8, 0x01u8]) == 0xFDu8,
        crc8(seq![0x55u8, 0x08u8, 0x00u8, 0x03u8, 0x04u8, 0x05u8]) == 0xF9u8,
        crc8(seq![0x55u8, 0x08u8, 0x00u8, 0x03u8, 0x04u8, 0x0Au8]) == 0xF8u8,
        crc8(seq![0x55u8, 0x08u8, 0x00u8, 0x03u8, 0x05u8, 0x01u8]) == 0xFFu8,
        crc8(seq![0x55u8, 0x08u8, 0x00u8, 0x03u8, 0x05u8, 0x05u8]) == 0xFBu8,
        crc8(seq![0x55u8, 0x08u8, 0x00u8, 0x03u8, 0x05u8, 0x0Au8]) == 0xFAu8,
        crc8(seq![0x55u8, 0x08u8, 0x00u8, 0x03u8, 0x06u8, 0x01u8]) == 0xFCu8,
        crc8(seq![0x55u8, 0x08u8, 0x00u8, 0x03u8, 0x06u8, 0x05u8]) == 0xF8u8,
        crc8(seq![0x55u8, 0x08u8, 0x00u8, 0x03u8, 0x06u8, 0x0Au8]) == 0xF9u8,
        crc8(seq![0x55u8, 0x08u8, 0x00u8, 0x03u8, 0x07u8, 0x01u8]) == 0xFEu8,
        crc8(seq![0x55u8, 0x08u8, 0x00u8, 0x03u8, 0x07u8, 0x05u8]) == 0xFAu8,
        crc8(seq![0x55u8, 0x08u8, 0x00u8, 0x03u8, 0x07u8, 0x0Au8]) == 0xFBu8,
        crc8(seq![0x55u8, 0x08u8, 0x00u8, 0x03u8, 0x08u8, 0x01u8]) == 0xFAu8,
        crc8(seq![0x55u8, 0x08u8, 0x00u8, 0x03u8, 0x08u8, 0x05u8]) == 0xFEu8,
        crc8(seq![0x55u8, 0x08u8, 0x00u8, 0x03u8, 0x08u8, 0x0Au8]) == 0xFFu8,
        crc8(seq![0x55u8, 0xA0u8, 0x00u8, 0x00u8, 0x00u8, 0x00u8]) == 0xFBu8,
{
    lemma_register_six(0x55u8, 0x02u8, 0x00u8, 0x00u8, 0x00u8, 0x00u8);
    assert(reflect8(crc_feed(crc_feed(crc_feed(crc_feed(crc_feed(crc_feed(CRC_INIT, 0x55u8), 0x02u8), 0x00u8), 0x00u8), 0x00u8), 0x00u8)) ^ CRC_XOR_OUT == 0xFCu8) by (bit_vector);
    lemma_register_six(0x55u8, 0x08u8, 0x00u8, 0x00u8, 0x01u8, 0x01u8);
    assert(reflect8(crc_feed(crc_feed(crc_feed(crc_feed(crc_feed(crc_feed(CRC_INIT, 0x55u8), 0x08u8), 0x00u8), 0x00u8), 0x01u8), 0x01u8)) ^ CRC_XOR_OUT == 0xFCu8) by (bit_vector);
    lemma_register_six(0x55u8, 0x08u8, 0x00u8, 0x00u8, 0x01u8, 0x02u8);
    assert(reflect8(crc_feed(crc_feed(crc_feed(crc_feed(crc_feed(crc_feed(CRC_INIT, 0x55u8), 0x08u8), 0x00u8), 0x00u8), 0x01u8), 0x02u8)) ^ CRC_XOR_OUT == 0xFBu8) by (bit_vector);
    lemma_register_six(0x55u8, 0x08u8, 0x00u8, 0x00u8, 0x02u8, 0x03u8);
    assert(reflect8(crc_feed(crc_feed(crc_feed(crc_feed(crc_feed(crc_feed(CRC_INIT, 0x55u8), 0x08u8), 0x00u8), 0x00u8), 0x02u8), 0x03u8)) ^ CRC_XOR_OUT == 0xF7u8) by (bit_vector);
    lemma_register_six(0x55u8, 0x08u8, 0x00u8, 0x00u8, 0x03u8, 0x04u8);
    assert(reflect8(crc_feed(crc_feed(crc_feed(crc_feed(crc_feed(crc_feed(CRC_INIT, 0x55u8), 0x08u8), 0x00u8), 0x00u8), 0x03u8), 0x04u8)) ^ CRC_XOR_OUT == 0xF6u8) by (bit_vector);
    lemma_register_six(0x55u8, 0x08u8, 0x00u8, 0x00u8, 0x04u8, 0x03u8);
    assert(reflect8(crc_feed(crc_feed(crc_feed(crc_feed(crc_feed(crc_feed(CRC_INIT, 0x55u8), 0x08u8), 0x00u8), 0x00u8), 0x04u8), 0x03u8)) ^ CRC_XOR_OUT == 0xF9u8) by (bit_vector);
    lemma_register_six(0x55u8, 0x08u8, 0x00u8, 0x00u8, 0x05u8, 0x06u8);
    assert(reflect8(crc_feed(crc_feed(crc_feed(crc_feed(crc_feed(crc_feed(CRC_INIT, 0x55u8), 0x08u8), 0x00u8), 0x00u8), 0x05u8), 0x06u8)) ^ CRC_XOR_OUT == 0xF0u8) by (bit_vector);
    lemma_register_six(0x55u8, 0x08u8, 0x00u8, 0x00u8, 0x06u8, 0x07u8);
    assert(reflect8(crc_feed(crc_feed(crc_feed(crc_feed(crc_feed(crc_feed(CRC_INIT, 0x55u8), 0x08u8), 0x00u8), 0x00u8), 0x06u8), 0x07u8)) ^ CRC_XOR_OUT == 0xFCu8) by (bit_vector);
    lemma_register_six(0x55u8, 0x08u8, 0x00u8, 0x00u8, 0x07u8, 0x08u8);
    assert(reflect8(crc_feed(crc_feed(crc_feed(crc_feed(crc_feed(crc_feed(CRC_INIT, 0x55u8), 0x08u8), 0x00u8), 0x00u8), 0x07u8), 0x08u8)) ^ CRC_XOR_OUT == 0xFFu8) by (bit_vector);
    lemma_register_six(0x55u8, 0x08u8, 0x00u8, 0x00u8, 0x08u8, 0x09u8);
    assert(reflect8(crc_feed(crc_feed(crc_feed(crc_feed(crc_feed(crc_feed(CRC_INIT, 0x55u8), 0x08u8), 0x00u8), 0x00u8), 0x08u8), 0x09u8)) ^ CRC_XOR_OUT == 0xF4u8) by (bit_vector);
    lemma_register_six(0x55u8, 0x08u8, 0x00u8, 0x00u8, 0x08u8, 0x0Au8);
    assert(reflect8(crc_feed(crc_feed(crc_feed(crc_feed(crc_feed(crc_feed(CRC_INIT, 0x55u8), 0x08u8), 0x00u8), 0x00u8), 0x08u8), 0x0Au8)) ^ CRC_XOR_OUT == 0xF3u8) by (bit_vector);
    lemma_register_six(0x55u8, 0x08u8, 0x00u8, 0x01u8, 0x00u8, 0x00u8);
    assert(reflect8(crc_feed(crc_feed(crc_feed(crc_feed(crc_feed(crc_feed(CRC_INIT, 0x55u8), 0x08u8), 0x00u8), 0x01u8), 0x00u8), 0x00u8)) ^ CRC_XOR_OUT == 0xF9u8) by (bit_vector);
    lemma_register_six(0x55u8, 0x08u8, 0x00u8, 0x03u8, 0x01u8, 0x01u8);
    assert(reflect8(crc_feed(crc_feed(crc_feed(crc_feed(crc_feed(crc_feed(CRC_INIT, 0x55u8), 0x08u8), 0x00u8), 0x03u8), 0x01u8), 0x01u8)) ^ CRC_XOR_OUT == 0xF0u8) by (bit_vector);
    lemma_register_six(0x55u8, 0x08u8, 0x00u8, 0x03u8, 0x01u8, 0x05u8);
    assert(reflect8(crc_feed(crc_feed(crc_feed(crc_feed(crc_feed(crc_feed(CRC_INIT, 0x55u8), 0x08u8), 0x00u8), 0x03u8), 0x01u8), 0x05u8)) ^ CRC_XOR_OUT == 0xF4u8) by (bit_vector);
    lemma_register_six(0x55u8, 0x08u8, 0x00u8, 0x03u8, 0x01u8, 0x0Au8);
    assert(reflect8(crc_feed(crc_feed(crc_feed(crc_feed(crc_feed(crc_feed(CRC_INIT, 0x55u8), 0x08u8), 0x00u8), 0x03u8), 0x01u8), 0x0Au8)) ^ CRC_XOR_OUT == 0xF5u8) by (bit_vector);
    lemma_register_six(0x55u8, 0x08u8, 0x00u8, 0x03u8, 0x02u8, 0x01u8);
    assert(reflect8(crc_feed(crc_feed(crc_feed(crc_feed(crc_feed(crc_feed(CRC_INIT, 0x55u8), 0x08u8), 0x00u8), 0x03u8), 0x02u8), 0x01u8)) ^ CRC_XOR_OUT == 0xF3u8) by (bit_vector);
    lemma_register_six(0x55u8, 0x08u8, 0x00u8, 0x03u8, 0x02u8, 0x05u8);
    assert(reflect8(crc_feed(crc_feed(crc_feed(crc_feed(crc_feed(crc_feed(CRC_INIT, 0x55u8), 0x08u8), 0x00u8), 0x03u8), 0x02u8), 0x05u8)) ^ CRC_XOR_OUT == 0xF7u8) by (bit_vector);
    lemma_register_six(0x55u8, 0x08u8, 0x00u8, 0x03u8, 0x02u8, 0x0Au8);
    assert(reflect8(crc_feed(crc_feed(crc_feed(crc_feed(crc_feed(crc_feed(CRC_INIT, 0x55u8), 0x08u8), 0x00u8), 0x03u8), 0x02u8), 0x0Au8)) ^ CRC_XOR_OUT == 0xF6u8) by (bit_vector);
    lemma_register_six(0x55u8, 0x08u8, 0x00u8, 0x03u8, 0x03u8, 0x01u8);
    assert(reflect8(crc_feed(crc_feed(crc_feed(crc_feed(crc_feed(crc_feed(CRC_INIT, 0x55u8), 0x08u8), 0x00u8), 0x03u8), 0x03u8), 0x01u8)) ^ CRC_XOR_OUT == 0xF1u8) by (bit_vector);
    lemma_register_six(0x55u8, 0x08u8, 0x00u8, 0x03u8, 0x03u8, 0x05u8);
    assert(reflect8(crc_feed(crc_feed(crc_feed(crc_feed(crc_feed(crc_feed(CRC_INIT, 0x55u8), 0x08u8), 0x00u8), 0x03u8), 0x03u8), 0x05u8)) ^ CRC_XOR_OUT == 0xF5u8) by (bit_vector);
    lemma_register_six(0x55u8, 0x08u8, 0x00u8, 0x03u8, 0x03u8, 0x0Au8);
    assert(reflect8(crc_feed(crc_feed(crc_feed(crc_feed(crc_feed(crc_feed(CRC_INIT, 0x55u8), 0x08u8), 0x00u8), 0x03u8), 0x03u8), 0x0Au8)) ^ CRC_XOR_OUT == 0xF4u8) by (bit_vector);
    lemma_register_six(0x55u8, 0x08u8, 0x00u8, 0x03u8, 0x04u8, 0x01u8);
    assert(reflect8(crc_feed(crc_feed(crc_feed(crc_feed(crc_feed(crc_feed(CRC_INIT, 0x55u8), 0x08u8), 0x00u8), 0x03u8), 0x04u8), 0x01u8)) ^ CRC_XOR_OUT == 0xFDu8) by (bit_vector);
    lemma_register_six(0x55u8, 0x08u8, 0x00u8, 0x03u8, 0x04u8, 0x05u8);
    assert(reflect8(crc_feed(crc_feed(crc_feed(crc_feed(crc_feed(crc_feed(CRC_INIT, 0x55u8), 0x08u8), 0x00u8), 0x03u8), 0x04u8), 0x05u8)) ^ CRC_XOR_OUT == 0xF9u8) by (bit_vector);
    lemma_register_six(0x55u8, 0x08u8, 0x00u8, 0x03u8, 0x04u8, 0x0Au8);
    assert(reflect8(crc_feed(crc_feed(crc_feed(crc_feed(crc_feed(crc_feed(CRC_INIT, 0x55u8), 0x08u8), 0x00u8), 0x03u8), 0x04u8), 0x0Au8)) ^ CRC_XOR_OUT == 0xF8u8) by (bit_vector);
    lemma_register_six(0x55u8, 0x08u8, 0x00u8, 0x03u8, 0x05u8, 0x01u8);
    assert(reflect8(crc_feed(crc_feed(crc_feed(crc_feed(crc_feed(crc_feed(CRC_INIT, 0x55u8), 0x08u8), 0x00u8), 0x03u8), 0x05u8), 0x01u8)) ^ CRC_XOR_OUT == 0xFFu8) by (bit_vector);
    lemma_register_six(0x55u8, 0x08u8, 0x00u8, 0x03u8, 0x05u8, 0x05u8);
    assert(reflect8(crc_feed(crc_feed(crc_feed(crc_feed(crc_feed(crc_feed(CRC_INIT, 0x55u8), 0x08u8), 0x00u8), 0x03u8), 0x05u8), 0x05u8)) ^ CRC_XOR_OUT == 0xFBu8) by (bit_vector);
    lemma_register_six(0x55u8, 0x08u8, 0x00u8, 0x03u8, 0x05u8, 0x0Au8);
    assert(reflect8(crc_feed(crc_feed(crc_feed(crc_feed(crc_feed(crc_feed(CRC_INIT, 0x55u8), 0x08u8), 0x00u8), 0x03u8), 0x05u8), 0x0Au8)) ^ CRC_XOR_OUT == 0xFAu8) by (bit_vector);
    lemma_register_six(0x55u8, 0x08u8, 0x00u8, 0x03u8, 0x06u8, 0x01u8);
    assert(reflect8(crc_feed(crc_feed(crc_feed(crc_feed(crc_feed(crc_feed(CRC_INIT, 0x55u8), 0x08u8), 0x00u8), 0x03u8), 0x06u8), 0x01u8)) ^ CRC_XOR_OUT == 0xFCu8) by (bit_vector);
    lemma_register_six(0x55u8, 0x08u8, 0x00u8, 0x03u8, 0x06u8, 0x05u8);
    assert(reflect8(crc_feed(crc_feed(crc_feed(crc_feed(crc_feed(crc_feed(CRC_INIT, 0x55u8), 0x08u8), 0x00u8), 0x03u8), 0x06u8), 0x05u8)) ^ CRC_XOR_OUT == 0xF8u8) by (bit_vector);
    lemma_register_six(0x55u8, 0x08u8, 0x00u8, 0x03u8, 0x06u8, 0x0Au8);
    assert(reflect8(crc_feed(crc_feed(crc_feed(crc_feed(crc_feed(crc_feed(CRC_INIT, 0x55u8), 0x08u8), 0x00u8), 0x03u8), 0x06u8), 0x0Au8)) ^ CRC_XOR_OUT == 0xF9u8) by (bit_vector);
    lemma_register_six(0x55u8, 0x08u8, 0x00u8, 0x03u8, 0x07u8, 0x01u8);
    assert(reflect8(crc_feed(crc_feed(crc_feed(crc_feed(crc_feed(crc_feed(CRC_INIT, 0x55u8), 0x08u8), 0x00u8), 0x03u8), 0x07u8), 0x01u8)) ^ CRC_XOR_OUT == 0xFEu8) by (bit_vector);
    lemma_register_six(0x55u8, 0x08u8, 0x00u8, 0x03u8, 0x07u8, 0x05u8);
    assert(reflect8(crc_feed(crc_feed(crc_feed(crc_feed(crc_feed(crc_feed(CRC_INIT, 0x55u8), 0x08u8), 0x00u8), 0x03u8), 0x07u8), 0x05u8)) ^ CRC_XOR_OUT == 0xFAu8) by (bit_vector);
    lemma_register_six(0x55u8, 0x08u8, 0x00u8, 0x03u8, 0x07u8, 0x0Au8);
    assert(reflect8(crc_feed(crc_feed(crc_feed(crc_feed(crc_feed(crc_feed(CRC_INIT, 0x55u8), 0x08u8), 0x00u8), 0x03u8), 0x07u8), 0x0Au8)) ^ CRC_XOR_OUT == 0xFBu8) by (bit_vector);
    lemma_register_six(0x55u8, 0x08u8, 0x00u8, 0x03u8, 0x08u8, 0x01u8);
    assert(reflect8(crc_feed(crc_feed(crc_feed(crc_feed(crc_feed(crc_feed(CRC_INIT, 0x55u8), 0x08u8), 0x00u8), 0x03u8), 0x08u8), 0x01u8)) ^ CRC_XOR_OUT == 0xFAu8) by (bit_vector);
    lemma_register_six(0x55u8, 0x08u8, 0x00u8, 0x03u8, 0x08u8, 0x05u8);
    assert(reflect8(crc_feed(crc_feed(crc_feed(crc_feed(crc_feed(crc_feed(CRC_INIT, 0x55u8), 0x08u8), 0x00u8), 0x03u8), 0x08u8), 0x05u8)) ^ CRC_XOR_OUT == 0xFEu8) by (bit_vector);
    lemma_register_six(0x55u8, 0x08u8, 0x00u8, 0x03u8, 0x08u8, 0x0Au8);
    assert(reflect8(crc_feed(crc_feed(crc_feed(crc_feed(crc_feed(crc_feed(CRC_INIT, 0x55u8), 0x08u8), 0x00u8), 0x03u8), 0x08u8), 0x0Au8)) ^ CRC_XOR_OUT == 0xFFu8) by (bit_vector);
    lemma_register_six(0x55u8, 0xA0u8, 0x00u8, 0x00u8, 0x00u8, 0x00u8);
    assert(reflect8(crc_feed(crc_feed(crc_feed(crc_feed(crc_feed(crc_feed(CRC_INIT, 0x55u8), 0xA0u8), 0x00u8), 0x00u8), 0x00u8), 0x00u8)) ^ CRC_XOR_OUT == 0xFBu8) by (bit_vector);
}

/// The check bytes of the two burst candidates that are not among the
/// device-confirmed commands: `55 08 00 03 03 03` and `55 03 00 00 01 01`.
pub proof fn lemma_candidate_check_bytes()
    ensures
        crc8(seq![0x55u8, 0x08u8, 0x00u8, 0x03u8, 0x03u8, 0x03u8]) == 0xF9u8,
        crc8(seq![0x55u8, 0x03u8, 0x00u8, 0x00u8, 0x01u8, 0x01u8]) == 0xF5u8,
{
    lemma_register_six(0x55u8, 0x08u8, 0x00u8, 0x03u8, 0x03u8, 0x03u8);
    assert(reflect8(crc_feed(crc_feed(crc_feed(crc_feed(crc_feed(crc_feed(CRC_INIT, 0x55u8), 0x08u8), 0x00u8), 0x03u8), 0x03u8), 0x03u8)) ^ CRC_XOR_OUT == 0xF9u8) by (bit_vector);
    lemma_register_six(0x55u8, 0x03u8, 0x00u8, 0x00u8, 0x01u8, 0x01u8);
    assert(reflect8(crc_feed(crc_feed(crc_feed(crc_feed(crc_feed(crc_feed(CRC_INIT, 0x55u8), 0x03u8), 0x00u8), 0x00u8), 0x01u8), 0x01u8)) ^ CRC_XOR_OUT == 0xF5u8) by (bit_vector);
}

fn crc_shift_exec(c: u8) -> (r: u8)
    ensures
        r == crc_shift(c),
{
    if c & 0x80u8 == 0x80u8 {
        (c << 1u8) ^ CRC_POLY
    } else {
        c << 1u8
    }
}

fn crc_feed_exec(c: u8, b: u8) -> (r: u8)
    ensures
        r == crc_feed(c, b),
{
    let mut reg: u8 = c ^ b;
    let mut i: usize = 0;
    while i < 8
        invariant
            i <= 8,
            reg == crc_shifts(c ^ b, i as nat),
        decreases 8 - i,
    {
        reg = crc_shift_exec(reg);
        i = i + 1;
    }
    reg
}

fn reflect8_exec(x: u8) -> (r: u8)
    ensures
        r == reflect8(x),
{
    ((x & 0x01u8) << 7u8) | ((x & 0x02u8) << 5u8) | ((x & 0x04u8) << 3u8) | ((x & 0x08u8) << 1u8)
        | ((x & 0x10u8) >> 1u8) | ((x & 0x20u8) >> 3u8) | ((x & 0x40u8) >> 5u8) | ((x
        & 0x80u8) >> 7u8)
}

/// The check byte of `data`: register from `0xFF`, each byte XOR-ed in and
/// shifted eight times MSB first with generator `0xF0`, then bit-reversed
/// and inverted.
pub fn crc8_of(data: &[u8]) -> (r: u8)
    ensures
        r == crc8(data@),
{
    let mut reg: u8 = CRC_INIT;
    let mut i: usize = 0;
    while i < data.len()
        invariant
            i <= data.len(),
            reg == crc_register(data@.take(i as int)),
        decreases data.len() - i,
    {
        proof {
            assert(data@.take(i + 1).drop_last() =~= data@.take(i as int));
        }
        reg = crc_feed_exec(reg, data[i]);
        i = i + 1;
    }
    proof {
        assert(data@.take(data.len() as int) =~= data@);
    }
    reflect8_exec(reg) ^ CRC_XOR_OUT
}

/// The 7-byte frame of a 6-byte body with its CRC tail.
pub fn frame_with_crc(body: [u8; 6]) -> (frame: [u8; 7])
    ensures
        frame@ == crc_frame(body@),
{
    let tail = crc8_of(body.as_slice());
    let frame = [body[0], body[1], body[2], body[3], body[4], body[5], tail];
    assert(frame@ =~= crc_frame(body@));
    frame
}

/// The 7-byte frame of a 6-byte body with the fixed `0xAA` tail.
pub fn frame_with_aa(body: [u8; 6]) -> (frame: [u8; 7])
    ensures
        frame@ == aa_frame(body@),
{
    let frame = [body[0], body[1], body[2], body[3], body[4], body[5], AA_TAIL];
    assert(frame@ =~= aa_frame(body@));
    frame
}

} // verus!
