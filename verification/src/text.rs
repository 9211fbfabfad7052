//! Decimal and hexadecimal text of integers: the formatting that `Display`
//! gives them and the parsing that `str::parse` does, written out and proved.
use vstd::prelude::*;
use vstd::string::*;

verus! {

/// Why a text is not an integer, mirroring the kinds that `str::parse` reports.
#[derive(Debug, Clone, Copy, PartialEq, Eq, Structural)]
pub enum IntErrorKind {
    Empty,
    InvalidDigit,
    PosOverflow,
    NegOverflow,
}

pub open spec fn is_digit(c: char) -> bool {
    '0' <= c && c <= '9'
}

pub open spec fn digit_value(c: char) -> int {
    (c as int) - ('0' as int)
}

pub open spec fn digit_char(d: int) -> char
    recommends
        0 <= d < 10,
{
    ((d + ('0' as int)) as u32) as char
}

/// Decimal digits of a natural number, most significant first, without
/// leading zeros ("0" for zero).
pub open spec fn nat_digits(n: nat) -> Seq<char>
    decreases n,
{
    if n < 10 {
        seq![digit_char(n as int)]
    } else {
        nat_digits(n / 10).push(digit_char((n % 10) as int))
    }
}

/// Decimal text of an integer as `Display` writes it.
pub open spec fn int_text(v: int) -> Seq<char> {
    if v < 0 {
        seq!['-'].add(nat_digits((-v) as nat))
    } else {
        nat_digits(v as nat)
    }
}

/// Reads digits left to right into `acc`, failing on the first character
/// that is no digit or the first step that leaves `[lo, hi]`; `negative`
/// accumulates downwards as a signed parse does.
pub open spec fn scan_digits(s: Seq<char>, acc: int, lo: int, hi: int, negative: bool) -> Result<
    int,
    IntErrorKind,
>
    decreases s.len(),
{
    if s.len() == 0 {
        Ok(acc)
    } else if !is_digit(s[0]) {
        Err(IntErrorKind::InvalidDigit)
    } else if negative {
        let v = acc * 10 - digit_value(s[0]);
        if v < lo {
            Err(IntErrorKind::NegOverflow)
        } else {
            scan_digits(s.drop_first(), v, lo, hi, negative)
        }
    } else {
        let v = acc * 10 + digit_value(s[0]);
        if v > hi {
            Err(IntErrorKind::PosOverflow)
        } else {
            scan_digits(s.drop_first(), v, lo, hi, negative)
        }
    }
}

/// What `str::parse` gives for an integer type with range `[lo, hi]`
/// (`signed` says whether a leading `-` is accepted).
pub open spec fn parse_int_spec(s: Seq<char>, lo: int, hi: int, signed: bool) -> Result<
    int,
    IntErrorKind,
> {
    if s.len() == 0 {
        Err(IntErrorKind::Empty)
    } else if (s[0] == '+' || s[0] == '-') && s.len() == 1 {
        Err(IntErrorKind::InvalidDigit)
    } else if s[0] == '+' {
        scan_digits(s.drop_first(), 0, lo, hi, false)
    } else if s[0] == '-' && signed {
        scan_digits(s.drop_first(), 0, lo, hi, true)
    } else {
        scan_digits(s, 0, lo, hi, false)
    }
}

pub open spec fn parse_u16_spec(s: Seq<char>) -> Result<u16, IntErrorKind> {
    match parse_int_spec(s, 0, 65535, false) {
        Ok(v) => Ok(v as u16),
        Err(e) => Err(e),
    }
}

pub open spec fn parse_i16_spec(s: Seq<char>) -> Result<i16, IntErrorKind> {
    match parse_int_spec(s, -32768, 32767, true) {
        Ok(v) => Ok(v as i16),
        Err(e) => Err(e),
    }
}

/// Appends one character to a string.
#[verifier::external_body]
pub(crate) fn push_char(s: &mut String, c: char)
    ensures
        final(s)@ == old(s)@.push(c),
{
    s.push(c);
}

/// Appends a string slice to a string.
#[verifier::external_body]
pub(crate) fn push_str(s: &mut String, t: &str)
    ensures
        final(s)@ == old(s)@ + t@,
{
    s.push_str(t);
}

/// A fresh empty string.
pub fn new_string() -> (s: String)
    ensures
        s@ == Seq::<char>::empty(),
{
    String::new()
}

/// A string holding the characters of `t`.
pub fn string_of(t: &str) -> (s: String)
    ensures
        s@ == t@,
{
    let mut s = String::new();
    push_str(&mut s, t);
    s
}

pub fn digit_to_char(d: u32) -> (c: char)
    requires
        d < 10,
    ensures
        c == digit_char(d as int),
        is_digit(c),
        digit_value(c) == d,
{
    let b: u8 = 48u8 + (d as u8);
    let c = b as char;
    assert(c == digit_char(d as int));
    c
}

/// The character of a decimal digit reads back as that digit.
pub proof fn lemma_digit_char(d: int)
    requires
        0 <= d < 10,
    ensures
        is_digit(digit_char(d)),
        digit_value(digit_char(d)) == d,
{
}

/// The decimal text of a number is a non-empty run of digits without a
/// leading zero (but for zero itself).
pub proof fn lemma_nat_digits_are_digits(n: nat)
    ensures
        nat_digits(n).len() >= 1,
        forall|i: int| 0 <= i < nat_digits(n).len() ==> #[trigger] is_digit(nat_digits(n)[i]),
        n == 0 || nat_digits(n)[0] != '0',
    decreases n,
{
    if n >= 10 {
        lemma_nat_digits_are_digits(n / 10);
        lemma_digit_char((n % 10) as int);
    } else {
        lemma_digit_char(n as int);
    }
}

/// An upward scan never looks at the lower bound, a downward scan never at the upper one.
proof fn lemma_scan_bounds_irrelevant(s: Seq<char>, acc: int, lo: int, hi: int, lo2: int, hi2: int, negative: bool)
    ensures
        !negative ==> scan_digits(s, acc, lo, hi, negative) == scan_digits(s, acc, lo2, hi, negative),
        negative ==> scan_digits(s, acc, lo, hi, negative) == scan_digits(s, acc, lo, hi2, negative),
    decreases s.len(),
{
    if s.len() > 0 && is_digit(s[0]) {
        let v = if negative { acc * 10 - digit_value(s[0]) } else { acc * 10 + digit_value(s[0]) };
        lemma_scan_bounds_irrelevant(s.drop_first(), v, lo, hi, lo2, hi2, negative);
    }
}

/// Scanning digits that extend an accumulated prefix.
proof fn lemma_scan_append(s: Seq<char>, c: char, acc: int, hi: int)
    requires
        is_digit(c),
        scan_digits(s, acc, 0, hi, false) is Ok,
        0 <= acc,
    ensures
        scan_digits(s.push(c), acc, 0, hi, false) == ({
            let v = scan_digits(s, acc, 0, hi, false)->Ok_0 * 10 + digit_value(c);
            if v > hi {
                Err::<int, IntErrorKind>(IntErrorKind::PosOverflow)
            } else {
                Ok(v)
            }
        }),
    decreases s.len(),
{
    if s.len() == 0 {
        assert(s.push(c).drop_first() =~= Seq::<char>::empty());
        reveal_with_fuel(scan_digits, 2);
    } else {
        let v = acc * 10 + digit_value(s[0]);
        assert(s.push(c).drop_first() =~= s.drop_first().push(c));
        assert(s.push(c)[0] == s[0]);
        lemma_scan_append(s.drop_first(), c, v, hi);
    }
}

/// The same for a downward (negative) scan.
proof fn lemma_scan_append_neg(s: Seq<char>, c: char, acc: int, lo: int)
    requires
        is_digit(c),
        scan_digits(s, acc, lo, 0, true) is Ok,
        acc <= 0,
    ensures
        scan_digits(s.push(c), acc, lo, 0, true) == ({
            let v = scan_digits(s, acc, lo, 0, true)->Ok_0 * 10 - digit_value(c);
            if v < lo {
                Err::<int, IntErrorKind>(IntErrorKind::NegOverflow)
            } else {
                Ok(v)
            }
        }),
    decreases s.len(),
{
    if s.len() == 0 {
        assert(s.push(c).drop_first() =~= Seq::<char>::empty());
        reveal_with_fuel(scan_digits, 2);
    } else {
        let v = acc * 10 - digit_value(s[0]);
        assert(s.push(c).drop_first() =~= s.drop_first().push(c));
        assert(s.push(c)[0] == s[0]);
        lemma_scan_append_neg(s.drop_first(), c, v, lo);
    }
}

/// Reading back the decimal digits of `n` gives `n`.
pub proof fn lemma_scan_nat_digits(n: nat, hi: int)
    requires
        n <= hi,
    ensures
        scan_digits(nat_digits(n), 0, 0, hi, false) == Ok::<int, IntErrorKind>(n as int),
    decreases n,
{
    if n < 10 {
        let s = nat_digits(n);
        lemma_digit_char(n as int);
        assert(s.drop_first() =~= Seq::<char>::empty());
        reveal_with_fuel(scan_digits, 2);
    } else {
        lemma_digit_char((n % 10) as int);
        lemma_scan_nat_digits(n / 10, hi);
        lemma_nat_digits_are_digits(n / 10);
        lemma_scan_append(nat_digits(n / 10), digit_char((n % 10) as int), 0, hi);
    }
}

/// Reading back the decimal digits of `n` downwards gives `-n`.
pub proof fn lemma_scan_nat_digits_neg(n: nat, lo: int)
    requires
        -n >= lo,
    ensures
        scan_digits(nat_digits(n), 0, lo, 0, true) == Ok::<int, IntErrorKind>(-n),
    decreases n,
{
    if n < 10 {
        let s = nat_digits(n);
        lemma_digit_char(n as int);
        assert(s.drop_first() =~= Seq::<char>::empty());
        reveal_with_fuel(scan_digits, 2);
    } else {
        lemma_digit_char((n % 10) as int);
        lemma_scan_nat_digits_neg(n / 10, lo);
        lemma_nat_digits_are_digits(n / 10);
        lemma_scan_append_neg(nat_digits(n / 10), digit_char((n % 10) as int), 0, lo);
    }
}

/// Formatting an unsigned integer and parsing it back as `u16` gives the number back.
pub proof fn lemma_u16_text_roundtrip(n: u16)
    ensures
        parse_u16_spec(nat_digits(n as nat)) == Ok::<u16, IntErrorKind>(n),
{
    lemma_nat_digits_are_digits(n as nat);
    lemma_scan_nat_digits(n as nat, 65535);
    let s = nat_digits(n as nat);
    assert(is_digit(s[0]));
}

/// Formatting a signed integer and parsing it back as `i16` gives the number back.
pub proof fn lemma_i16_text_roundtrip(n: i16)
    ensures
        parse_i16_spec(int_text(n as int)) == Ok::<i16, IntErrorKind>(n),
{
    if n < 0 {
        let m = (-(n as int)) as nat;
        lemma_nat_digits_are_digits(m);
        lemma_scan_nat_digits_neg(m, -32768);
        lemma_scan_bounds_irrelevant(nat_digits(m), 0, -32768, 0, 0, 32767, true);
        let s = int_text(n as int);
        assert(s.drop_first() =~= nat_digits(m));
        assert(s[0] == '-');
        assert(s.len() > 1);
    } else {
        lemma_nat_digits_are_digits(n as nat);
        lemma_scan_nat_digits(n as nat, 32767);
        lemma_scan_bounds_irrelevant(nat_digits(n as nat), 0, 0, 32767, -32768, 0, false);
        let s = nat_digits(n as nat);
        assert(is_digit(s[0]));
    }
}

/// Appends the decimal digits of `n` to `out`.
pub fn push_decimal(out: &mut String, n: u64)
    ensures
        final(out)@ == old(out)@ + nat_digits(n as nat),
    decreases n,
{
    if n < 10 {
        push_char(out, digit_to_char(n as u32));
        assert(nat_digits(n as nat) =~= seq![digit_char(n as int)]);
    } else {
        push_decimal(out, n / 10);
        push_char(out, digit_to_char((n % 10) as u32));
        assert(old(out)@ + nat_digits(n as nat) =~= old(out)@ + nat_digits((n / 10) as nat) + seq![
            digit_char((n % 10) as int),
        ]);
    }
}

/// Appends the decimal text of a signed integer (with `-` for negative values).
pub fn push_signed_decimal(out: &mut String, v: i64)
    requires
        v > i64::MIN,
    ensures
        final(out)@ == old(out)@ + int_text(v as int),
{
    if v < 0 {
        push_char(out, '-');
        push_decimal(out, (-v) as u64);
        assert(old(out)@ + int_text(v as int) =~= old(out)@.push('-') + nat_digits((-v) as nat));
    } else {
        push_decimal(out, v as u64);
    }
}

/// The decimal text of `n`, as `n.to_string()` gives it.
pub fn decimal_string(n: u64) -> (s: String)
    ensures
        s@ == nat_digits(n as nat),
{
    let mut s = String::new();
    push_decimal(&mut s, n);
    assert(s@ =~= nat_digits(n as nat));
    s
}

/// Scans `s[from..to]` as unsigned digits into a value bounded by `hi`.
fn scan_unsigned(s: &str, from: usize, to: usize, hi: u32) -> (r: Result<u32, IntErrorKind>)
    requires
        from <= to <= s@.len(),
        hi <= 65535,
    ensures
        match r {
            Ok(v) => v <= hi && scan_digits(s@.subrange(from as int, to as int), 0, 0, hi as int, false)
                == Ok::<int, IntErrorKind>(v as int),
            Err(e) => scan_digits(s@.subrange(from as int, to as int), 0, 0, hi as int, false)
                == Err::<int, IntErrorKind>(e),
        },
{
    let mut acc: u32 = 0;
    let mut i = from;
    while i < to
        invariant
            from <= i <= to <= s@.len(),
            hi <= 65535,
            acc <= hi,
            scan_digits(s@.subrange(from as int, to as int), 0, 0, hi as int, false)
                == scan_digits(s@.subrange(i as int, to as int), acc as int, 0, hi as int, false),
        decreases to - i,
    {
        let c = s.get_char(i);
        assert(s@.subrange(i as int, to as int)[0] == c);
        assert(s@.subrange(i as int, to as int).drop_first() =~= s@.subrange(
            (i + 1) as int,
            to as int,
        ));
        if !('0' <= c && c <= '9') {
            return Err(IntErrorKind::InvalidDigit);
        }
        let d = (c as u32) - 48;
        let v = acc * 10 + d;
        if v > hi {
            return Err(IntErrorKind::PosOverflow);
        }
        acc = v;
        i = i + 1;
    }
    assert(s@.subrange(to as int, to as int) =~= Seq::<char>::empty());
    Ok(acc)
}

/// Scans `s[from..to]` as digits of a negative number bounded below by `-lo_abs`.
fn scan_negative(s: &str, from: usize, to: usize, lo_abs: u32) -> (r: Result<u32, IntErrorKind>)
    requires
        from <= to <= s@.len(),
        lo_abs <= 65536,
    ensures
        match r {
            Ok(v) => v <= lo_abs && scan_digits(s@.subrange(from as int, to as int), 0, -(lo_abs as int), 0, true)
                == Ok::<int, IntErrorKind>(-(v as int)),
            Err(e) => scan_digits(s@.subrange(from as int, to as int), 0, -(lo_abs as int), 0, true)
                == Err::<int, IntErrorKind>(e),
        },
{
    let mut acc: u32 = 0;
    let mut i = from;
    while i < to
        invariant
            from <= i <= to <= s@.len(),
            lo_abs <= 65536,
            acc <= lo_abs,
            scan_digits(s@.subrange(from as int, to as int), 0, -(lo_abs as int), 0, true)
                == scan_digits(
                s@.subrange(i as int, to as int),
                -(acc as int),
                -(lo_abs as int),
                0,
                true,
            ),
        decreases to - i,
    {
        let c = s.get_char(i);
        assert(s@.subrange(i as int, to as int)[0] == c);
        assert(s@.subrange(i as int, to as int).drop_first() =~= s@.subrange(
            (i + 1) as int,
            to as int,
        ));
        if !('0' <= c && c <= '9') {
            return Err(IntErrorKind::InvalidDigit);
        }
        let d = (c as u32) - 48;
        let v = acc * 10 + d;
        if v > lo_abs {
            return Err(IntErrorKind::NegOverflow);
        }
        acc = v;
        i = i + 1;
    }
    assert(s@.subrange(to as int, to as int) =~= Seq::<char>::empty());
    Ok(acc)
}

/// Parses `s[from..to]` as a `u16`, as `str::parse::<u16>` does.
pub fn parse_u16_range(s: &str, from: usize, to: usize) -> (r: Result<u16, IntErrorKind>)
    requires
        from <= to <= s@.len(),
    ensures
        r == parse_u16_spec(s@.subrange(from as int, to as int)),
{
    let ghost t = s@.subrange(from as int, to as int);
    if from == to {
        return Err(IntErrorKind::Empty);
    }
    let c = s.get_char(from);
    assert(t[0] == c);
    if (c == '+' || c == '-') && to - from == 1 {
        return Err(IntErrorKind::InvalidDigit);
    }
    let start = if c == '+' {
        from + 1
    } else {
        from
    };
    assert(c == '+' ==> t.drop_first() =~= s@.subrange(start as int, to as int));
    assert(c != '+' ==> t =~= s@.subrange(start as int, to as int));
    match scan_unsigned(s, start, to, 65535) {
        Ok(v) => Ok(v as u16),
        Err(e) => Err(e),
    }
}

/// Parses `s[from..to]` as an `i16`, as `str::parse::<i16>` does.
pub fn parse_i16_range(s: &str, from: usize, to: usize) -> (r: Result<i16, IntErrorKind>)
    requires
        from <= to <= s@.len(),
    ensures
        r == parse_i16_spec(s@.subrange(from as int, to as int)),
{
    let ghost t = s@.subrange(from as int, to as int);
    if from == to {
        return Err(IntErrorKind::Empty);
    }
    let c = s.get_char(from);
    assert(t[0] == c);
    if (c == '+' || c == '-') && to - from == 1 {
        return Err(IntErrorKind::InvalidDigit);
    }
    if c == '-' {
        assert(t.drop_first() =~= s@.subrange(from + 1, to as int));
        proof {
            lemma_scan_bounds_irrelevant(t.drop_first(), 0, -32768, 0, 0, 32767, true);
        }
        match scan_negative(s, from + 1, to, 32768) {
            Ok(v) => {
                let r: i32 = -(v as i32);
                Ok(r as i16)
            },
            Err(e) => Err(e),
        }
    } else {
        let start = if c == '+' {
            from + 1
        } else {
            from
        };
        assert(c == '+' ==> t.drop_first() =~= s@.subrange(start as int, to as int));
        assert(c != '+' ==> t =~= s@.subrange(start as int, to as int));
        proof {
            lemma_scan_bounds_irrelevant(s@.subrange(start as int, to as int), 0, 0, 32767, -32768, 0, false);
        }
        match scan_unsigned(s, start, to, 32767) {
            Ok(v) => Ok(v as i16),
            Err(e) => Err(e),
        }
    }
}

/// Parses a whole string as a `u16`.
pub fn parse_u16(s: &str) -> (r: Result<u16, IntErrorKind>)
    ensures
        r == parse_u16_spec(s@),
{
    let n = s.unicode_len();
    assert(s@.subrange(0, n as int) =~= s@);
    parse_u16_range(s, 0, n)
}

/// Lower-case hexadecimal digit.
pub open spec fn hex_char(d: int) -> char {
    if d < 10 {
        digit_char(d)
    } else {
        ((d - 10 + ('a' as int)) as u32) as char
    }
}

/// Two lower-case hexadecimal digits of a byte (`{:02x}`).
pub open spec fn hex_byte(b: u8) -> Seq<char> {
    seq![hex_char((b / 16) as int), hex_char((b % 16) as int)]
}

fn hex_digit(d: u8) -> (c: char)
    requires
        d < 16,
    ensures
        c == hex_char(d as int),
{
    if d < 10 {
        digit_to_char(d as u32)
    } else {
        let b: u8 = 87u8 + d;
        b as char
    }
}

/// Appends a byte as two lower-case hex digits.
pub fn push_hex_byte(out: &mut String, b: u8)
    ensures
        final(out)@ == old(out)@ + hex_byte(b),
{
    push_char(out, hex_digit(b / 16));
    push_char(out, hex_digit(b % 16));
    assert(out@ =~= old(out)@ + hex_byte(b));
}

} // verus!
