//! Decimal and fixed-width hexadecimal rendering of integers, used for the
//! human-readable messages and digests the library hands back, and the
//! unsigned-integer parsing of command-line and RPC inputs.
use vstd::prelude::*;
use vstd::string::StringSliceAdditionalSpecFns;

verus! {

/// The ASCII character of decimal digit `d`.
pub open spec fn digit_char(d: nat) -> char {
    (48 + d) as char
}

/// Decimal rendering of `n`, most significant digit first, no leading zeros.
pub open spec fn decimal(n: nat) -> Seq<char>
    decreases n,
{
    if n < 10 {
        seq![digit_char(n)]
    } else {
        decimal(n / 10).push(digit_char(n % 10))
    }
}

/// The lower-case ASCII character of hexadecimal digit `d`.
pub open spec fn hex_char(d: nat) -> char {
    if d < 10 {
        (48 + d) as char
    } else {
        (87 + d) as char
    }
}

/// The `k` least significant hexadecimal digits of `n`, most significant first.
pub open spec fn hex_digits(n: nat, k: nat) -> Seq<char>
    decreases k,
{
    if k == 0 {
        Seq::empty()
    } else {
        hex_digits(n / 16, (k - 1) as nat).push(hex_char(n % 16))
    }
}

/// `0x` followed by exactly eight lower-case hexadecimal digits of `v`.
pub open spec fn hex8(v: u32) -> Seq<char> {
    seq!['0', 'x'] + hex_digits(v as nat, 8)
}

fn digit_str(d: u64) -> (s: &'static str)
    requires
        d < 10,
    ensures
        s@ == seq![digit_char(d as nat)],
{
    if d == 0 {
        proof { reveal_strlit("0"); }
        "0"
    } else if d == 1 {
        proof { reveal_strlit("1"); }
        "1"
    } else if d == 2 {
        proof { reveal_strlit("2"); }
        "2"
    } else if d == 3 {
        proof { reveal_strlit("3"); }
        "3"
    } else if d == 4 {
        proof { reveal_strlit("4"); }
        "4"
    } else if d == 5 {
        proof { reveal_strlit("5"); }
        "5"
    } else if d == 6 {
        proof { reveal_strlit("6"); }
        "6"
    } else if d == 7 {
        proof { reveal_strlit("7"); }
        "7"
    } else if d == 8 {
        proof { reveal_strlit("8"); }
        "8"
    } else {
        proof { reveal_strlit("9"); }
        "9"
    }
}

fn hex_letter_str(d: u32) -> (s: &'static str)
    requires
        10 <= d < 16,
    ensures
        s@ == seq![hex_char(d as nat)],
{
    if d == 10 {
        proof { reveal_strlit("a"); }
        "a"
    } else if d == 11 {
        proof { reveal_strlit("b"); }
        "b"
    } else if d == 12 {
        proof { reveal_strlit("c"); }
        "c"
    } else if d == 13 {
        proof { reveal_strlit("d"); }
        "d"
    } else if d == 14 {
        proof { reveal_strlit("e"); }
        "e"
    } else {
        proof { reveal_strlit("f"); }
        "f"
    }
}

/// Decimal rendering of `n`.
pub fn decimal_string(n: u64) -> (s: String)
    ensures
        s@ == decimal(n as nat),
    decreases n,
{
    if n < 10 {
        String::from_str(digit_str(n))
    } else {
        let mut s = decimal_string(n / 10);
        s.append(digit_str(n % 10));
        s
    }
}

fn hex_digits_string(n: u32, k: u32) -> (s: String)
    ensures
        s@ == hex_digits(n as nat, k as nat),
    decreases k,
{
    if k == 0 {
        String::new()
    } else {
        let mut s = hex_digits_string(n / 16, k - 1);
        let d = n % 16;
        if d < 10 {
            s.append(digit_str(d as u64));
        } else {
            s.append(hex_letter_str(d));
        }
        s
    }
}

/// `0x` followed by the eight lower-case hexadecimal digits of `v`.
pub fn hex8_string(v: u32) -> (s: String)
    ensures
        s@ == hex8(v),
{
    let digits = hex_digits_string(v, 8);
    let mut s = String::from_str("0x");
    proof { reveal_strlit("0x"); }
    s.append(digits.as_str());
    s
}

/// `prefix` immediately followed by the decimal rendering of `n`.
pub fn with_number(prefix: &str, n: u64) -> (s: String)
    ensures
        s@ == prefix@ + decimal(n as nat),
{
    let mut s = String::from_str(prefix);
    let d = decimal_string(n);
    s.append(d.as_str());
    s
}

/// Why a string is not an unsigned integer of the requested width.
#[derive(Debug, Clone, Copy, PartialEq, Eq, Structural)]
pub enum ParseFailure {
    /// The string is empty.
    Empty,
    /// A byte is not a digit of the radix (or the string is a lone sign).
    InvalidDigit,
    /// The value does not fit below the requested maximum.
    Overflow,
}

/// The value of ASCII byte `b` as a digit of `radix`, if it is one
/// (`0-9`, then `a-z` / `A-Z` for 10 and up).
pub open spec fn digit_of(b: u8, radix: nat) -> Option<nat> {
    let v: int = if 48 <= b <= 57 {
        b - 48
    } else if 97 <= b <= 122 {
        b - 87
    } else if 65 <= b <= 90 {
        b - 55
    } else {
        99
    };
    if v < radix { Some(v as nat) } else { None }
}

/// Left-to-right accumulation of the digits `d`: the first byte that is not
/// a digit, or the first prefix whose value exceeds `max`, decides the failure.
pub open spec fn scan_digits(d: Seq<u8>, radix: nat, max: nat) -> Result<nat, ParseFailure>
    decreases d.len(),
{
    if d.len() == 0 {
        Ok(0)
    } else {
        match scan_digits(d.drop_last(), radix, max) {
            Err(e) => Err(e),
            Ok(v) => match digit_of(d.last(), radix) {
                None => Err(ParseFailure::InvalidDigit),
                Some(x) => if v * radix + x > max { Err(ParseFailure::Overflow) } else { Ok(v * radix + x) },
            },
        }
    }
}

/// Unsigned parse of the bytes `s`: an optional leading `+`, then at least one digit.
pub open spec fn parse_unsigned_spec(s: Seq<u8>, radix: nat, max: nat) -> Result<nat, ParseFailure> {
    if s.len() == 0 {
        Err(ParseFailure::Empty)
    } else if s[0] == 43u8 {
        if s.len() == 1 { Err(ParseFailure::InvalidDigit) } else { scan_digits(s.drop_first(), radix, max) }
    } else if s.len() == 1 && s[0] == 45u8 {
        Err(ParseFailure::InvalidDigit)
    } else {
        scan_digits(s, radix, max)
    }
}

proof fn lemma_scan_bounded(d: Seq<u8>, radix: nat, max: nat)
    ensures
        scan_digits(d, radix, max) matches Ok(v) ==> v <= max,
    decreases d.len(),
{
    if d.len() > 0 {
        lemma_scan_bounded(d.drop_last(), radix, max);
    }
}

fn digit_exec(b: u8, radix: u32) -> (r: Option<u32>)
    ensures
        r matches Some(x) ==> digit_of(b, radix as nat) == Some(x as nat),
        r is None ==> digit_of(b, radix as nat) is None,
{
    let v: u32 = if 48u8 <= b && b <= 57u8 {
        (b - 48u8) as u32
    } else if 97u8 <= b && b <= 122u8 {
        (b - 87u8) as u32
    } else if 65u8 <= b && b <= 90u8 {
        (b - 55u8) as u32
    } else {
        99
    };
    if v < radix { Some(v) } else { None }
}

fn scan_from(b: &[u8], start: usize, radix: u32, max: u64) -> (r: Result<u64, ParseFailure>)
    requires
        start <= b@.len(),
        2 <= radix <= 36,
    ensures
        match r {
            Ok(v) => scan_digits(b@.skip(start as int), radix as nat, max as nat) == Ok::<nat, ParseFailure>(v as nat),
            Err(e) => scan_digits(b@.skip(start as int), radix as nat, max as nat) == Err::<nat, ParseFailure>(e),
        },
{
    let ghost d = b@.skip(start as int);
    let mut acc: u64 = 0;
    let mut i: usize = start;
    assert(d.take(0) =~= Seq::<u8>::empty());
    while i < b.len()
        invariant
            start <= i <= b@.len(),
            d == b@.skip(start as int),
            2 <= radix <= 36,
            scan_digits(d.take(i - start), radix as nat, max as nat) == Ok::<nat, ParseFailure>(acc as nat),
        decreases b@.len() - i,
    {
        let ghost k = i - start;
        assert(d.take(k + 1).drop_last() =~= d.take(k));
        assert(d.take(k + 1).last() == b@[i as int]);
        match digit_exec(b[i], radix) {
            None => {
                proof { lemma_scan_prefix_err(d, k + 1, radix as nat, max as nat); }
                return Err(ParseFailure::InvalidDigit);
            },
            Some(x) => {
                assert((acc as u128) * (radix as u128) + (x as u128) < 0x1_0000_0000_0000_0000_0000_0000u128) by (nonlinear_arith)
                    requires acc <= u64::MAX, radix <= 36, x < 36;
                let next: u128 = (acc as u128) * (radix as u128) + (x as u128);
                if next > max as u128 {
                    proof { lemma_scan_prefix_err(d, k + 1, radix as nat, max as nat); }
                    return Err(ParseFailure::Overflow);
                }
                acc = next as u64;
            },
        }
        i = i + 1;
    }
    assert(d.take(b@.len() - start) =~= d);
    Ok(acc)
}

proof fn lemma_scan_prefix_err(d: Seq<u8>, k: int, radix: nat, max: nat)
    requires
        0 <= k <= d.len(),
        scan_digits(d.take(k), radix, max) is Err,
    ensures
        scan_digits(d, radix, max) == scan_digits(d.take(k), radix, max),
    decreases d.len() - k,
{
    if k < d.len() {
        assert(d.take(k + 1).drop_last() =~= d.take(k));
        lemma_scan_prefix_err(d, k + 1, radix, max);
    } else {
        assert(d.take(k) =~= d);
    }
}

/// Parse `b[start..]` as an unsigned integer of `radix` no larger than `max`.
pub(crate) fn parse_unsigned_bytes(b: &[u8], start: usize, radix: u32, max: u64) -> (r: Result<u64, ParseFailure>)
    requires
        start <= b@.len(),
        2 <= radix <= 36,
    ensures
        match r {
            Ok(v) => parse_unsigned_spec(b@.skip(start as int), radix as nat, max as nat) == Ok::<nat, ParseFailure>(v as nat),
            Err(e) => parse_unsigned_spec(b@.skip(start as int), radix as nat, max as nat) == Err::<nat, ParseFailure>(e),
        },
        r matches Ok(v) ==> v <= max,
{
    let ghost s = b@.skip(start as int);
    proof { lemma_scan_bounded(s, radix as nat, max as nat); }
    if start == b.len() {
        return Err(ParseFailure::Empty);
    }
    assert(s[0] == b@[start as int]);
    if b[start] == 43u8 {
        if start + 1 == b.len() {
            return Err(ParseFailure::InvalidDigit);
        }
        assert(b@.skip(start + 1) =~= s.drop_first());
        proof { lemma_scan_bounded(s.drop_first(), radix as nat, max as nat); }
        return scan_from(b, start + 1, radix, max);
    }
    if start + 1 == b.len() && b[start] == 45u8 {
        return Err(ParseFailure::InvalidDigit);
    }
    scan_from(b, start, radix, max)
}

/// Parse the bytes of `s` as an unsigned integer of `radix` no larger than
/// `max`: an optional leading `+`, then digits only.
pub fn parse_unsigned(s: &str, radix: u32, max: u64) -> (r: Result<u64, ParseFailure>)
    requires
        2 <= radix <= 36,
    ensures
        match r {
            Ok(v) => parse_unsigned_spec(s.spec_bytes(), radix as nat, max as nat) == Ok::<nat, ParseFailure>(v as nat),
            Err(e) => parse_unsigned_spec(s.spec_bytes(), radix as nat, max as nat) == Err::<nat, ParseFailure>(e),
        },
        r matches Ok(v) ==> v <= max,
{
    let b = s.as_bytes();
    assert(b@.skip(0) =~= b@);
    parse_unsigned_bytes(b, 0, radix, max)
}

/// The message of a parse failure.
pub open spec fn parse_failure_text(e: ParseFailure) -> Seq<char> {
    match e {
        ParseFailure::Empty => "cannot parse integer from empty string"@,
        ParseFailure::InvalidDigit => "invalid digit found in string"@,
        ParseFailure::Overflow => "number too large to fit in target type"@,
    }
}

impl ParseFailure {
    /// The human-readable message of this failure.
    pub fn message(&self) -> (m: &'static str)
        ensures
            m@ == parse_failure_text(*self),
    {
        match self {
            ParseFailure::Empty => "cannot parse integer from empty string",
            ParseFailure::InvalidDigit => "invalid digit found in string",
            ParseFailure::Overflow => "number too large to fit in target type",
        }
    }
}

} // verus!
