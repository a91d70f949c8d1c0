//! Command-line arguments: `--flag value` lookup, bare flags, and decimal
//! numbers read the way `str::parse` reads unsigned integers.

use vstd::prelude::*;
use crate::text::text_eq;

verus! {

/// `i` is the first position of `flag` among the arguments.
pub open spec fn first_flag_at(args: Seq<String>, flag: Seq<char>, i: int) -> bool {
    &&& 0 <= i < args.len()
    &&& args[i]@ == flag
    &&& forall|j: int| 0 <= j < i ==> (#[trigger] args[j])@ != flag
}

/// The argument after the first occurrence of `flag`, if there is one.
pub fn arg_value(args: &[String], flag: &str) -> (r: Option<String>)
    ensures
        r is None <==> forall|i: int| first_flag_at(args@, flag@, i) ==> i + 1 >= args@.len(),
        r matches Some(v) ==> forall|i: int|
            first_flag_at(args@, flag@, i) ==> v@ == args@[i + 1]@,
{
    let mut i: usize = 0;
    while i < args.len()
        invariant
            i <= args@.len(),
            forall|j: int| 0 <= j < i ==> (#[trigger] args@[j])@ != flag@,
        decreases args.len() - i,
    {
        if text_eq(args[i].as_str(), flag) {
            assert(first_flag_at(args@, flag@, i as int));
            assert forall|k: int| first_flag_at(args@, flag@, k) implies k == i by {
                if k < i {
                } else if k > i {
                    assert(args@[i as int]@ == flag@);
                }
            }
            if i + 1 < args.len() {
                return Some(args[i + 1].clone());
            } else {
                return None;
            }
        }
        i = i + 1;
    }
    None
}

/// The argument after the first occurrence of `flag`, or `default` when
/// there is none (as `arg_value(..).unwrap_or_else(|| default.into())`).
pub fn arg_value_or(args: &[String], flag: &str, default: &str) -> (r: String)
    ensures
        (forall|i: int| first_flag_at(args@, flag@, i) ==> i + 1 >= args@.len()) ==> r@ == default@,
        forall|i: int| first_flag_at(args@, flag@, i) && i + 1 < args@.len() ==> r@ == args@[i + 1]@,
{
    match arg_value(args, flag) {
        Some(v) => v,
        None => String::from_str(default),
    }
}

/// Some argument equals `flag`.
pub open spec fn has_flag_spec(args: Seq<String>, flag: Seq<char>) -> bool {
    exists|i: int| 0 <= i < args.len() && (#[trigger] args[i])@ == flag
}

/// Whether some argument equals `flag`.
pub fn has_flag(args: &[String], flag: &str) -> (r: bool)
    ensures
        r == has_flag_spec(args@, flag@),
{
    let mut i: usize = 0;
    while i < args.len()
        invariant
            i <= args@.len(),
            forall|j: int| 0 <= j < i ==> (#[trigger] args@[j])@ != flag@,
        decreases args.len() - i,
    {
        if text_eq(args[i].as_str(), flag) {
            return true;
        }
        i = i + 1;
    }
    false
}

/// A decimal digit.
pub open spec fn is_dec_char(c: char) -> bool {
    48 <= c as int <= 57
}

/// The value of a run of decimal digits, most significant first.
pub open spec fn dec_digits_value(d: Seq<char>) -> int
    decreases d.len(),
{
    if d.len() == 0 {
        0
    } else {
        10 * dec_digits_value(d.drop_last()) + (d.last() as int - 48)
    }
}

/// The digits of a number: the text without its leading `+`, if any.
pub open spec fn number_digits(s: Seq<char>) -> Seq<char> {
    if s.len() > 0 && s[0] == '+' {
        s.drop_first()
    } else {
        s
    }
}

/// The decimal form of a number reads back as that number: it is a
/// non-empty run of decimal digits worth `n`, with no leading zero.
pub proof fn lemma_decimal_reads_back(n: nat)
    ensures
        crate::hex::decimal(n).len() > 0,
        forall|k: int| 0 <= k < crate::hex::decimal(n).len() ==> is_dec_char(#[trigger] crate::hex::decimal(n)[k]),
        dec_digits_value(crate::hex::decimal(n)) == n,
        crate::hex::decimal(n).len() > 1 ==> crate::hex::decimal(n)[0] != '0',
        crate::hex::decimal(n).len() == 1 <==> n < 10,
        forall|max: int| n <= max ==> #[trigger] parsed_unsigned(crate::hex::decimal(n), max) == Some(n as int),
    decreases n,
{
    let d = crate::hex::decimal(n);
    if n >= 10 {
        lemma_decimal_reads_back(n / 10);
        let p = crate::hex::decimal(n / 10);
        assert(d == p.push(crate::hex::dec_digit((n % 10) as int)));
        assert(d.drop_last() =~= p);
        assert(d[0] == p[0]);
        if p.len() == 1 {
            assert(1 <= n / 10 < 10);
            assert(p[0] == crate::hex::dec_digit((n / 10) as int));
            assert(p[0] as int == 48 + n / 10);
        }
        assert forall|k: int| 0 <= k < d.len() implies is_dec_char(#[trigger] d[k]) by {
            if k < p.len() {
                assert(d[k] == p[k]);
            }
        }
        assert(d.last() == crate::hex::dec_digit((n % 10) as int));
        assert(d.last() as int == 48 + n % 10);
        assert(n == 10 * (n / 10) + n % 10);
        assert(dec_digits_value(d) == 10 * dec_digits_value(p) + (d.last() as int - 48));
    } else {
        assert(d.drop_last() =~= Seq::<char>::empty());
        assert(d.last() as int == 48 + n);
        assert(dec_digits_value(d) == 10 * dec_digits_value(d.drop_last()) + (d.last() as int - 48));
    }
    assert(d[0] != '+');
    assert(number_digits(d) == d);
}

/// The signed decimal form of an integer is its magnitude's decimal form,
/// preceded by `-` exactly when the integer is negative.
pub proof fn lemma_signed_decimal_reads_back(i: int)
    ensures
        i < 0 ==> crate::hex::signed_decimal(i)[0] == '-' && dec_digits_value(
            crate::hex::signed_decimal(i).drop_first(),
        ) == -i,
        i >= 0 ==> crate::hex::signed_decimal(i)[0] != '-' && dec_digits_value(
            crate::hex::signed_decimal(i),
        ) == i,
{
    if i < 0 {
        lemma_decimal_reads_back((-i) as nat);
        assert(crate::hex::signed_decimal(i).drop_first() =~= crate::hex::decimal((-i) as nat));
    } else {
        lemma_decimal_reads_back(i as nat);
        let d = crate::hex::decimal(i as nat);
        assert(is_dec_char(d[0]));
    }
}

/// What `str::parse` reads as an unsigned integer no larger than `max`: an
/// optional `+`, then at least one decimal digit, with a value up to `max`.
pub open spec fn parsed_unsigned(s: Seq<char>, max: int) -> Option<int> {
    let d = number_digits(s);
    if d.len() > 0 && (forall|k: int| 0 <= k < d.len() ==> is_dec_char(#[trigger] d[k]))
        && dec_digits_value(d) <= max {
        Some(dec_digits_value(d))
    } else {
        None
    }
}

proof fn lemma_dec_value_grows(s: Seq<char>, first: int, mid: int, end: int)
    requires
        0 <= first <= mid <= end <= s.len(),
        forall|k: int| first <= k < end ==> is_dec_char(#[trigger] s[k]),
    ensures
        dec_digits_value(s.subrange(first, end)) >= dec_digits_value(s.subrange(first, mid)),
        dec_digits_value(s.subrange(first, mid)) >= 0,
    decreases end - first,
{
    if end > first {
        let p = s.subrange(first, end);
        assert(p.drop_last() =~= s.subrange(first, end - 1));
        assert(p.last() == s[end - 1]);
        assert(is_dec_char(s[end - 1]));
        if mid < end {
            lemma_dec_value_grows(s, first, mid, end - 1);
        } else {
            lemma_dec_value_grows(s, first, first, end - 1);
            let q = s.subrange(first, first);
            assert(q =~= Seq::<char>::empty());
        }
    } else {
        assert(s.subrange(first, mid) =~= Seq::<char>::empty());
    }
}

/// Reads `s` as an unsigned decimal number no larger than `max`, the way
/// `str::parse` does for an unsigned type whose largest value is `max`.
pub fn parse_unsigned(s: &str, max: u64) -> (r: Option<u64>)
    ensures
        match r {
            Some(v) => parsed_unsigned(s@, max as int) == Some(v as int),
            None => parsed_unsigned(s@, max as int) is None,
        },
{
    let n = s.unicode_len();
    if n == 0 {
        return None;
    }
    let mut i: usize = 0;
    if s.get_char(0) == '+' {
        i = 1;
    }
    let ghost d = number_digits(s@);
    assert(d =~= s@.subrange(i as int, n as int));
    if i == n {
        return None;
    }
    let first = i;
    let mut value: u64 = 0;
    while i < n
        invariant
            first <= i <= n,
            n == s@.len(),
            d == s@.subrange(first as int, n as int),
            d == number_digits(s@),
            forall|k: int| first <= k < i ==> is_dec_char(#[trigger] s@[k]),
            value <= max,
            value == dec_digits_value(s@.subrange(first as int, i as int)),
        decreases n - i,
    {
        let c = s.get_char(i);
        let v = c as u32;
        if v < 48 || v > 57 {
            assert(d[i - first] == s@[i as int]);
            return None;
        }
        proof {
            let p = s@.subrange(first as int, i + 1);
            assert(p.drop_last() =~= s@.subrange(first as int, i as int));
            assert(p.last() == c);
        }
        let next: u128 = 10 * (value as u128) + ((v - 48) as u128);
        if next > max as u128 {
            proof {
                if forall|k: int| first <= k < n ==> is_dec_char(#[trigger] s@[k]) {
                    lemma_dec_value_grows(s@, first as int, i + 1, n as int);
                } else {
                    let k = choose|k: int| first <= k < n && !is_dec_char(#[trigger] s@[k]);
                    assert(d[k - first] == s@[k]);
                }
            }
            return None;
        }
        value = next as u64;
        i = i + 1;
    }
    assert(s@.subrange(first as int, n as int) =~= d);
    Some(value)
}

} // verus!
