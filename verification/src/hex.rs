//! Text forms of bytes and numbers: upper-case hex digits, the spaced hex
//! dump used in every report (`55 08 00 00 01 01 FC`), decimal numbers, and
//! reading a spaced hex dump back into bytes.

use vstd::prelude::*;
use crate::text::push_char;

verus! {

/// The upper-case hex digit of `n` (`0 <= n < 16`).
pub open spec fn hex_digit(n: int) -> char {
    if n < 10 {
        (48 + n) as char
    } else {
        (55 + n) as char
    }
}

/// The two upper-case hex digits of a byte (`{:02X}`).
pub open spec fn hex2(b: u8) -> Seq<char> {
    seq![hex_digit(b as int / 16), hex_digit(b as int % 16)]
}

/// The bytes as two-digit upper-case hex, separated by single spaces.
pub open spec fn hex_text(bytes: Seq<u8>) -> Seq<char>
    decreases bytes.len(),
{
    if bytes.len() == 0 {
        seq![]
    } else if bytes.len() == 1 {
        hex2(bytes[0])
    } else {
        hex2(bytes[0]) + seq![' '] + hex_text(bytes.drop_first())
    }
}

/// The decimal digit of `n` (`0 <= n < 10`).
pub open spec fn dec_digit(n: int) -> char {
    (48 + n) as char
}

/// The decimal form of a natural number, without leading zeros.
pub open spec fn decimal(n: nat) -> Seq<char>
    decreases n,
{
    if n < 10 {
        seq![dec_digit(n as int)]
    } else {
        decimal(n / 10).push(dec_digit((n % 10) as int))
    }
}

/// The decimal form of an integer, with a leading `-` when negative.
pub open spec fn signed_decimal(i: int) -> Seq<char> {
    if i < 0 {
        seq!['-'] + decimal((-i) as nat)
    } else {
        decimal(i as nat)
    }
}

/// Appending one more byte to a dump adds a space (unless the dump was
/// empty) and the byte's two digits.
pub proof fn lemma_hex_text_push(bytes: Seq<u8>, b: u8)
    ensures
        hex_text(bytes.push(b)) == if bytes.len() == 0 {
            hex2(b)
        } else {
            hex_text(bytes) + seq![' '] + hex2(b)
        },
    decreases bytes.len(),
{
    if bytes.len() == 0 {
    } else if bytes.len() == 1 {
        assert(bytes.push(b).drop_first() =~= seq![b]);
        assert(hex_text(seq![b]) == hex2(b));
    } else {
        let rest = bytes.drop_first();
        assert(bytes.push(b).drop_first() =~= rest.push(b));
        lemma_hex_text_push(rest, b);
        assert(hex_text(bytes.push(b)) =~= hex_text(bytes) + seq![' '] + hex2(b));
    }
}

fn hex_digit_char(n: u8) -> (c: char)
    requires
        n < 16,
    ensures
        c == hex_digit(n as int),
{
    if n < 10 {
        (48u8 + n) as char
    } else {
        (55u8 + n) as char
    }
}

/// Appends the two upper-case hex digits of `b`.
pub fn push_hex2(s: &mut String, b: u8)
    ensures
        final(s)@ == old(s)@ + hex2(b),
{
    push_char(s, hex_digit_char(b / 16));
    push_char(s, hex_digit_char(b % 16));
    assert(s@ =~= old(s)@ + hex2(b));
}

/// The two upper-case hex digits of `b` as a new text.
pub fn hex2_string(b: u8) -> (r: String)
    ensures
        r@ == hex2(b),
{
    let mut s = String::new();
    push_hex2(&mut s, b);
    assert(s@ =~= hex2(b));
    s
}

/// The bytes as spaced upper-case hex: `[0x55, 0x02]` gives `55 02`.
pub fn spaced_hex(bytes: &[u8]) -> (r: String)
    ensures
        r@ == hex_text(bytes@),
{
    let mut s = String::new();
    let mut i: usize = 0;
    while i < bytes.len()
        invariant
            i <= bytes.len(),
            s@ == hex_text(bytes@.take(i as int)),
        decreases bytes.len() - i,
    {
        proof {
            assert(bytes@.take(i + 1) =~= bytes@.take(i as int).push(bytes@[i as int]));
            lemma_hex_text_push(bytes@.take(i as int), bytes@[i as int]);
        }
        if i > 0 {
            push_char(&mut s, ' ');
        }
        push_hex2(&mut s, bytes[i]);
        proof {
            if i == 0 {
                assert(s@ =~= hex2(bytes@[0]));
            } else {
                assert(s@ =~= hex_text(bytes@.take(i as int)) + seq![' '] + hex2(bytes@[i as int]));
            }
        }
        i = i + 1;
    }
    assert(bytes@.take(bytes.len() as int) =~= bytes@);
    s
}

/// Appends the decimal form of `n`.
pub fn push_decimal(s: &mut String, n: u64)
    ensures
        final(s)@ == old(s)@ + decimal(n as nat),
    decreases n,
{
    if n >= 10 {
        push_decimal(s, n / 10);
    }
    push_char(s, ((n % 10) as u8 + 48u8) as char);
    assert(s@ =~= old(s)@ + decimal(n as nat));
}

/// Appends the decimal form of `i`, with `-` in front when negative.
pub fn push_signed(s: &mut String, i: i32)
    ensures
        final(s)@ == old(s)@ + signed_decimal(i as int),
{
    if i < 0 {
        push_char(s, '-');
        let magnitude: u64 = (-(i as i64)) as u64;
        push_decimal(s, magnitude);
        assert(s@ =~= old(s)@ + signed_decimal(i as int));
    } else {
        push_decimal(s, i as u64);
    }
}


/// A character with the Unicode `White_Space` property (what
/// `char::is_whitespace` and `str::split_whitespace` separate on).
pub open spec fn is_white_space(c: char) -> bool {
    let v = c as int;
    ||| 9 <= v <= 13
    ||| v == 32
    ||| v == 0x85
    ||| v == 0xA0
    ||| v == 0x1680
    ||| 0x2000 <= v <= 0x200A
    ||| v == 0x2028
    ||| v == 0x2029
    ||| v == 0x202F
    ||| v == 0x205F
    ||| v == 0x3000
}

/// A hex digit in either case.
pub open spec fn is_hex_char(c: char) -> bool {
    let v = c as int;
    ||| 48 <= v <= 57
    ||| 65 <= v <= 70
    ||| 97 <= v <= 102
}

/// The value of a hex digit.
pub open spec fn hex_char_value(c: char) -> int {
    let v = c as int;
    if v <= 57 {
        v - 48
    } else if v <= 70 {
        v - 55
    } else {
        v - 87
    }
}

/// The value of a run of hex digits, most significant first.
pub open spec fn hex_digits_value(d: Seq<char>) -> int
    decreases d.len(),
{
    if d.len() == 0 {
        0
    } else {
        16 * hex_digits_value(d.drop_last()) + hex_char_value(d.last())
    }
}

/// The digits of a token: the token without its leading `+`, if any.
pub open spec fn token_digits(t: Seq<char>) -> Seq<char> {
    if t.len() > 0 && t[0] == '+' {
        t.drop_first()
    } else {
        t
    }
}

/// Every character is a hex digit.
pub open spec fn all_hex(d: Seq<char>) -> bool {
    forall|k: int| 0 <= k < d.len() ==> is_hex_char(#[trigger] d[k])
}

/// The byte that `u8::from_str_radix(token, 16)` reads from a token: an
/// optional `+`, then at least one hex digit, with a value below 256.
pub open spec fn token_byte(t: Seq<char>) -> Option<u8> {
    let d = token_digits(t);
    if d.len() > 0 && all_hex(d) && hex_digits_value(d) <= 255 {
        Some(hex_digits_value(d) as u8)
    } else {
        None
    }
}

/// The length of the token at the front of `s` (up to the first white space).
pub open spec fn token_len(s: Seq<char>) -> nat
    decreases s.len(),
{
    if s.len() == 0 || is_white_space(s[0]) {
        0
    } else {
        1 + token_len(s.drop_first())
    }
}

/// The bytes of the white-space separated hex tokens of `s`, or `None`
/// when one token is not a byte in hex.
pub open spec fn hex_tokens(s: Seq<char>) -> Option<Seq<u8>>
    decreases s.len(),
{
    if s.len() == 0 {
        Some(Seq::<u8>::empty())
    } else if is_white_space(s[0]) {
        hex_tokens(s.drop_first())
    } else {
        let n = token_len(s);
        proof {
            lemma_token_len_bound(s);
        }
        match (token_byte(s.take(n as int)), hex_tokens(s.skip(n as int))) {
            (Some(b), Some(rest)) => Some(seq![b] + rest),
            _ => None,
        }
    }
}

/// The leading token is made of non-white characters and ends at white
/// space or at the end of the text.
pub proof fn lemma_token_len_bound(s: Seq<char>)
    ensures
        token_len(s) <= s.len(),
        s.len() > 0 && !is_white_space(s[0]) ==> token_len(s) >= 1,
        forall|k: int| 0 <= k < token_len(s) ==> !is_white_space(#[trigger] s[k]),
        token_len(s) < s.len() ==> is_white_space(s[token_len(s) as int]),
    decreases s.len(),
{
    if s.len() == 0 || is_white_space(s[0]) {
    } else {
        lemma_token_len_bound(s.drop_first());
        assert forall|k: int| 0 <= k < token_len(s) implies !is_white_space(#[trigger] s[k]) by {
            if k > 0 {
                assert(s[k] == s.drop_first()[k - 1]);
            }
        }
    }
}

fn is_white_space_exec(c: char) -> (r: bool)
    ensures
        r == is_white_space(c),
{
    let v = c as u32;
    (9 <= v && v <= 13) || v == 32 || v == 0x85 || v == 0xA0 || v == 0x1680 || (0x2000 <= v && v
        <= 0x200A) || v == 0x2028 || v == 0x2029 || v == 0x202F || v == 0x205F || v == 0x3000
}

fn hex_char_value_exec(c: char) -> (r: Option<u32>)
    ensures
        r is Some <==> is_hex_char(c),
        r matches Some(v) ==> v == hex_char_value(c) && v < 16,
{
    let v = c as u32;
    if 48 <= v && v <= 57 {
        Some(v - 48)
    } else if 65 <= v && v <= 70 {
        Some(v - 55)
    } else if 97 <= v && v <= 102 {
        Some(v - 87)
    } else {
        None
    }
}

proof fn lemma_hex_digits_nonneg(d: Seq<char>)
    requires
        forall|k: int| 0 <= k < d.len() ==> is_hex_char(#[trigger] d[k]),
    ensures
        hex_digits_value(d) >= 0,
    decreases d.len(),
{
    if d.len() > 0 {
        lemma_hex_digits_nonneg(d.drop_last());
    }
}

/// Reads the token `s[start..end]` as `u8::from_str_radix(_, 16)` does.
fn read_token(s: &str, start: usize, end: usize) -> (r: Option<u8>)
    requires
        start < end <= s@.len(),
    ensures
        r == token_byte(s@.subrange(start as int, end as int)),
{
    let ghost t = s@.subrange(start as int, end as int);
    let mut i = start;
    if s.get_char(start) == '+' {
        i = start + 1;
    }
    let ghost d = token_digits(t);
    assert(d =~= s@.subrange(i as int, end as int));
    if i == end {
        return None;
    }
    let first = i;
    let mut value: u32 = 0;
    while i < end
        invariant
            start <= first <= i <= end,
            start < end,
            end <= s@.len(),
            d == s@.subrange(first as int, end as int),
            t == s@.subrange(start as int, end as int),
            d == token_digits(t),
            forall|k: int| first <= k < i ==> is_hex_char(#[trigger] s@[k]),
            value <= 255,
            value == hex_digits_value(s@.subrange(first as int, i as int)),
        decreases end - i,
    {
        let c = s.get_char(i);
        match hex_char_value_exec(c) {
            None => {
                assert(d[i - first] == s@[i as int]);
                assert(!is_hex_char(d[i - first]));
                return None;
            },
            Some(digit) => {
                proof {
                    let p = s@.subrange(first as int, i + 1);
                    assert(p.drop_last() =~= s@.subrange(first as int, i as int));
                    assert(p.last() == c);
                }
                let next: u32 = 16 * value + digit;
                if next > 255 {
                    proof {
                        if forall|k: int| first <= k < end ==> is_hex_char(#[trigger] s@[k]) {
                            lemma_value_grows(s@, first as int, i + 1, end as int);
                            assert(hex_digits_value(d) > 255);
                        } else {
                            let k = choose|k: int| first <= k < end && !is_hex_char(#[trigger] s@[k]);
                            assert(d[k - first] == s@[k]);
                        }
                    }
                    return None;
                }
                value = next;
                i = i + 1;
            },
        }
    }
    assert(s@.subrange(first as int, end as int) =~= d);
    Some(value as u8)
}

/// A longer run of hex digits is worth at least as much as its prefix.
proof fn lemma_value_grows(s: Seq<char>, first: int, mid: int, end: int)
    requires
        0 <= first <= mid <= end <= s.len(),
        forall|k: int| first <= k < end ==> is_hex_char(#[trigger] s[k]),
    ensures
        hex_digits_value(s.subrange(first, end)) >= hex_digits_value(s.subrange(first, mid)),
    decreases end - mid,
{
    if mid < end {
        lemma_value_grows(s, first, mid, end - 1);
        let p = s.subrange(first, end);
        assert(p.drop_last() =~= s.subrange(first, end - 1));
        assert(is_hex_char(s[end - 1]));
        assert(p.last() == s[end - 1]);
        let q = s.subrange(first, end - 1);
        assert forall|k: int| 0 <= k < q.len() implies is_hex_char(#[trigger] q[k]) by {
            assert(q[k] == s[first + k]);
        }
        lemma_hex_digits_nonneg(q);
    }
}


/// The bytes read back from spaced hex text: the white-space separated
/// tokens, each read as `u8::from_str_radix(token, 16)`; `None` when a token
/// is not a byte in hex.
pub fn parse_spaced_hex(s: &str) -> (r: Option<Vec<u8>>)
    ensures
        match r {
            Some(v) => hex_tokens(s@) == Some(v@),
            None => hex_tokens(s@) is None,
        },
{
    let n = s.unicode_len();
    let mut out: Vec<u8> = Vec::new();
    let mut i: usize = 0;
    proof {
        assert(s@.skip(0) =~= s@);
        match hex_tokens(s@) {
            Some(rest) => {
                assert(out@ + rest =~= rest);
            },
            None => {},
        }
    }
    while i < n
        invariant
            i <= n,
            n == s@.len(),
            hex_tokens(s@) == match hex_tokens(s@.skip(i as int)) {
                Some(rest) => Some(out@ + rest),
                None => None,
            },
        decreases n - i,
    {
        let ghost u = s@.skip(i as int);
        let c = s.get_char(i);
        if is_white_space_exec(c) {
            assert(u.drop_first() =~= s@.skip(i + 1));
            i = i + 1;
        } else {
            let start = i;
            let mut j = i + 1;
            proof {
                assert(u.drop_first() =~= s@.skip(start + 1));
            }
            while j < n && !is_white_space_exec(s.get_char(j))
                invariant
                    start < j <= n,
                    n == s@.len(),
                    u == s@.skip(start as int),
                    token_len(u) == (j - start) + token_len(s@.skip(j as int)),
                decreases n - j,
            {
                proof {
                    let w = s@.skip(j as int);
                    assert(w.drop_first() =~= s@.skip(j + 1));
                }
                j = j + 1;
            }
            proof {
                let w = s@.skip(j as int);
                if j < n {
                    assert(w[0] == s@[j as int]);
                }
                assert(token_len(w) == 0);
                assert(u.take(token_len(u) as int) =~= s@.subrange(start as int, j as int));
                assert(u.skip(token_len(u) as int) =~= s@.skip(j as int));
                assert(u[0] == c);
            }
            match read_token(s, start, j) {
                None => {
                    return None;
                },
                Some(b) => {
                    proof {
                        match hex_tokens(s@.skip(j as int)) {
                            Some(rest) => {
                                assert(out@.push(b) + rest =~= out@ + (seq![b] + rest));
                            },
                            None => {},
                        }
                    }
                    out.push(b);
                    i = j;
                },
            }
        }
    }
    proof {
        assert(s@.skip(n as int) =~= Seq::<char>::empty());
        assert(out@ + Seq::<u8>::empty() =~= out@);
    }
    Some(out)
}


proof fn lemma_hex_digit(n: int)
    requires
        0 <= n < 16,
    ensures
        is_hex_char(hex_digit(n)),
        !is_white_space(hex_digit(n)),
        hex_digit(n) != '+',
        hex_char_value(hex_digit(n)) == n,
{
}

/// The two digits of a byte read back as that byte.
proof fn lemma_hex2_token(b: u8)
    ensures
        token_byte(hex2(b)) == Some(b),
        !is_white_space(hex2(b)[0]),
        !is_white_space(hex2(b)[1]),
{
    let h = hex2(b);
    lemma_hex_digit(b as int / 16);
    lemma_hex_digit(b as int % 16);
    assert(token_digits(h) == h);
    assert(h.drop_last() =~= seq![hex_digit(b as int / 16)]);
    let h1 = h.drop_last();
    assert(h1.drop_last() =~= Seq::<char>::empty());
    assert(hex_digits_value(h1.drop_last()) == 0);
    assert(h1.last() == hex_digit(b as int / 16));
    assert(hex_digits_value(h1) == b as int / 16);
    assert(h.last() == hex_digit(b as int % 16));
    assert(hex_digits_value(h) == b as int);
}

/// The token at the front of two digits followed by nothing or by white
/// space is those two digits.
proof fn lemma_token_len_hex2(b: u8, rest: Seq<char>)
    requires
        rest.len() == 0 || is_white_space(rest[0]),
    ensures
        token_len(hex2(b) + rest) == 2,
{
    lemma_hex2_token(b);
    let s = hex2(b) + rest;
    let s1 = s.drop_first();
    let s2 = s1.drop_first();
    assert(s2 =~= rest);
    assert(token_len(s2) == 0);
    assert(s1[0] == hex2(b)[1]);
    assert(s[0] == hex2(b)[0]);
    assert(token_len(s1) == 1 + token_len(s2));
    assert(token_len(s) == 1 + token_len(s1));
}

/// Reading a spaced hex dump gives back the bytes it was made from.
pub proof fn lemma_hex_round_trip(bytes: Seq<u8>)
    ensures
        hex_tokens(hex_text(bytes)) == Some(bytes),
    decreases bytes.len(),
{
    if bytes.len() == 0 {
    } else {
        let b = bytes[0];
        let tail = if bytes.len() == 1 {
            Seq::<char>::empty()
        } else {
            seq![' '] + hex_text(bytes.drop_first())
        };
        let s = hex_text(bytes);
        assert(s =~= hex2(b) + tail);
        lemma_hex2_token(b);
        if bytes.len() > 1 {
            assert(tail[0] == ' ');
        }
        lemma_token_len_hex2(b, tail);
        assert(s.take(2) =~= hex2(b));
        assert(s.skip(2) =~= tail);
        if bytes.len() == 1 {
            assert(bytes =~= seq![b]);
            assert(seq![b] + Seq::<u8>::empty() =~= seq![b]);
        } else {
            let rest = bytes.drop_first();
            lemma_hex_round_trip(rest);
            assert(tail.drop_first() =~= hex_text(rest));
            assert(hex_tokens(tail) == hex_tokens(hex_text(rest)));
            assert(seq![b] + rest =~= bytes);
        }
    }
}


/// Where each character of a dump comes from: the two digits of byte `k`
/// stand at `3k` and `3k + 1`, and a space at `3k + 2` between bytes.
pub proof fn lemma_hex_text_index(b: Seq<u8>)
    requires
        b.len() > 0,
    ensures
        hex_text(b).len() == 3 * b.len() - 1,
        forall|k: int| 0 <= k < b.len() ==> #[trigger] hex_text(b)[3 * k] == hex_digit(b[k] as int / 16),
        forall|k: int| 0 <= k < b.len() ==> #[trigger] hex_text(b)[3 * k + 1] == hex_digit(b[k] as int % 16),
        forall|k: int| 0 <= k < b.len() - 1 ==> #[trigger] hex_text(b)[3 * k + 2] == ' ',
    decreases b.len(),
{
    if b.len() > 1 {
        let rest = b.drop_first();
        lemma_hex_text_index(rest);
        let t = hex_text(b);
        let h = hex2(b[0]);
        assert(t == h + seq![' '] + hex_text(rest));
        assert forall|k: int| 0 <= k < b.len() implies #[trigger] t[3 * k] == hex_digit(b[k] as int / 16) by {
            if k > 0 {
                assert(t[3 * k] == hex_text(rest)[3 * (k - 1)]);
                assert(rest[k - 1] == b[k]);
            }
        }
        assert forall|k: int| 0 <= k < b.len() implies #[trigger] t[3 * k + 1] == hex_digit(b[k] as int % 16) by {
            if k > 0 {
                assert(t[3 * k + 1] == hex_text(rest)[3 * (k - 1) + 1]);
                assert(rest[k - 1] == b[k]);
            }
        }
        assert forall|k: int| 0 <= k < b.len() - 1 implies #[trigger] t[3 * k + 2] == ' ' by {
            if k > 0 {
                assert(t[3 * k + 2] == hex_text(rest)[3 * (k - 1) + 2]);
            }
        }
    }
}

proof fn lemma_hex_digit_injective(x: int, y: int)
    requires
        0 <= x < 16,
        0 <= y < 16,
        hex_digit(x) == hex_digit(y),
    ensures
        x == y,
{
    lemma_hex_digit(x);
    lemma_hex_digit(y);
}

/// Searching a dump for the dump of `p` finds it exactly where the bytes
/// hold `p`: the text search is a search on whole bytes.
pub proof fn lemma_hex_search(b: Seq<u8>, p: Seq<u8>)
    requires
        p.len() > 0,
    ensures
        crate::text::contains_text(hex_text(b), hex_text(p)) <==> exists|m: int|
            0 <= m && m + p.len() <= b.len() && #[trigger] b.subrange(m, m + p.len()) == p,
{
    let t = hex_text(b);
    let q = hex_text(p);
    let l = p.len() as int;
    lemma_hex_text_index(p);
    if exists|m: int| 0 <= m && m + l <= b.len() && #[trigger] b.subrange(m, m + l) == p {
        let m = choose|m: int| 0 <= m && m + l <= b.len() && #[trigger] b.subrange(m, m + l) == p;
        lemma_hex_text_index(b);
        assert forall|x: int| 0 <= x < q.len() implies t.subrange(3 * m, 3 * m + q.len())[x] == q[x] by {
            let j = x / 3;
            let r = x % 3;
            assert(x == 3 * j + r);
            assert(b[m + j] == p[j]) by {
                assert(b.subrange(m, m + l)[j] == b[m + j]);
            }
            assert(3 * m + x == 3 * (m + j) + r);
            if r == 0 {
                assert(t[3 * (m + j)] == hex_digit(b[m + j] as int / 16));
                assert(q[3 * j] == hex_digit(p[j] as int / 16));
            } else if r == 1 {
                assert(t[3 * (m + j) + 1] == hex_digit(b[m + j] as int % 16));
                assert(q[3 * j + 1] == hex_digit(p[j] as int % 16));
            } else {
                assert(t[3 * (m + j) + 2] == ' ');
                assert(q[3 * j + 2] == ' ');
            }
        }
        assert(t.subrange(3 * m, 3 * m + q.len()) =~= q);
        assert(crate::text::occurs_at(t, q, 3 * m));
    }
    if crate::text::contains_text(t, q) {
        let i = choose|i: int| crate::text::occurs_at(t, q, i);
        assert(b.len() > 0) by {
            if b.len() == 0 {
                assert(t.len() == 0);
            }
        }
        lemma_hex_text_index(b);
        let m = i / 3;
        let r = i % 3;
        assert(i == 3 * m + r);
        lemma_hex_digit(p[0] as int / 16);
        lemma_hex_digit(p[0] as int % 16);
        assert(t[i] == q[0]) by {
            assert(t.subrange(i, i + q.len())[0] == t[i]);
        }
        assert(t[i + 1] == q[1]) by {
            assert(t.subrange(i, i + q.len())[1] == t[i + 1]);
        }
        if r == 2 {
            assert(t[3 * m + 2] == ' ');
            assert(false);
        } else if r == 1 {
            assert(t[3 * m + 2] == ' ');
            assert(false);
        }
        assert(r == 0);
        assert forall|j: int| 0 <= j < l implies #[trigger] b.subrange(m, m + l)[j] == p[j] by {
            assert(t.subrange(i, i + q.len())[3 * j] == t[3 * (m + j)]);
            assert(t.subrange(i, i + q.len())[3 * j + 1] == t[3 * (m + j) + 1]);
            assert(t[3 * (m + j)] == q[3 * j]);
            assert(t[3 * (m + j) + 1] == q[3 * j + 1]);
            let x = b[m + j];
            let y = p[j];
            lemma_hex_digit_injective(x as int / 16, y as int / 16);
            lemma_hex_digit_injective(x as int % 16, y as int % 16);
            assert(x as int == 16 * (x as int / 16) + x as int % 16);
            assert(y as int == 16 * (y as int / 16) + y as int % 16);
            assert(b.subrange(m, m + l)[j] == x);
        }
        assert(b.subrange(m, m + l) =~= p);
    }
}

/// The spaced hex of a reply, or `fallback` when there was none.
pub open spec fn reply_text(reply: Option<Seq<u8>>, fallback: Seq<char>) -> Seq<char> {
    match reply {
        Some(b) => hex_text(b),
        None => fallback,
    }
}

/// The bytes of an optional reply.
pub open spec fn reply_view(reply: Option<Vec<u8>>) -> Option<Seq<u8>> {
    match reply {
        Some(v) => Some(v@),
        None => None,
    }
}

/// The spaced hex of a reply, or `fallback` when there was none.
pub fn reply_or(reply: &Option<Vec<u8>>, fallback: &str) -> (r: String)
    ensures
        r@ == reply_text(reply_view(*reply), fallback@),
{
    match reply {
        Some(bytes) => spaced_hex(bytes.as_slice()),
        None => String::from_str(fallback),
    }
}

} // verus!
