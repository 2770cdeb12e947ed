//! Integer text: parsing as `str::parse`/`from_str_radix` do, and decimal and
//! hexadecimal rendering as `Display` and `{:02x}` do.
use vstd::prelude::*;
use crate::text::{chars_of, is_digit, is_digit_char, is_hex_digit, is_hex_digit_char, string_of};

verus! {

/// The value of one digit in base 10 or 16.
pub open spec fn digit_value(c: char) -> nat {
    if '0' <= c && c <= '9' {
        ((c as u32) - ('0' as u32)) as nat
    } else if 'a' <= c && c <= 'f' {
        ((c as u32) - ('a' as u32) + 10) as nat
    } else if 'A' <= c && c <= 'F' {
        ((c as u32) - ('A' as u32) + 10) as nat
    } else {
        0
    }
}

pub open spec fn is_radix_digit(c: char, radix: nat) -> bool {
    if radix == 16 {
        is_hex_digit(c)
    } else {
        is_digit(c)
    }
}

pub open spec fn all_radix_digits(s: Seq<char>, radix: nat) -> bool {
    forall|i: int| 0 <= i < s.len() ==> is_radix_digit(#[trigger] s[i], radix)
}

/// The number that the digits `s` denote in base `radix`.
pub open spec fn digits_value(s: Seq<char>, radix: nat) -> nat
    decreases s.len(),
{
    if s.len() == 0 {
        0
    } else {
        digits_value(s.drop_last(), radix) * radix + digit_value(s.last())
    }
}

/// `from_str_radix` for an unsigned type whose largest value is `max`:
/// an optional `+`, then one or more digits, and a value not above `max`.
pub open spec fn parse_unsigned(s: Seq<char>, radix: nat, max: nat) -> Option<nat> {
    let d = if s.len() > 0 && s[0] == '+' {
        s.drop_first()
    } else {
        s
    };
    if d.len() == 0 || !all_radix_digits(d, radix) || digits_value(d, radix) > max {
        None
    } else {
        Some(digits_value(d, radix))
    }
}

proof fn lemma_digits_value_grows(s: Seq<char>, radix: nat, i: int)
    requires
        0 <= i <= s.len(),
        radix >= 1,
    ensures
        digits_value(s.take(i), radix) <= digits_value(s, radix),
    decreases s.len() - i,
{
    if i < s.len() {
        lemma_digits_value_grows(s, radix, i + 1);
        let t = s.take(i + 1);
        assert(t.drop_last() =~= s.take(i));
        let v = digits_value(s.take(i), radix);
        assert(v <= v * radix) by (nonlinear_arith)
            requires
                radix >= 1,
        ;
    } else {
        assert(s.take(i) =~= s);
    }
}

pub fn digit_value_exec(c: char) -> (r: u64)
    ensures
        r == digit_value(c),
        r < 16,
{
    if '0' <= c && c <= '9' {
        (c as u64) - ('0' as u64)
    } else if 'a' <= c && c <= 'f' {
        (c as u64) - ('a' as u64) + 10
    } else if 'A' <= c && c <= 'F' {
        (c as u64) - ('A' as u64) + 10
    } else {
        0
    }
}

/// Parses `s` as `from_str_radix(s, radix)` into an unsigned type whose largest value is `max`.
pub fn parse_unsigned_vec(s: &Vec<char>, radix: u64, max: u64) -> (r: Option<u64>)
    requires
        radix == 10 || radix == 16,
    ensures
        match r {
            Some(v) => parse_unsigned(s@, radix as nat, max as nat) == Some(v as nat),
            None => parse_unsigned(s@, radix as nat, max as nat) is None,
        },
{
    let start: usize = if s.len() > 0 && s[0] == '+' {
        1
    } else {
        0
    };
    let ghost d = if s@.len() > 0 && s@[0] == '+' {
        s@.drop_first()
    } else {
        s@
    };
    assert(d =~= s@.skip(start as int));
    if start >= s.len() {
        return None;
    }
    let mut v: u64 = 0;
    let mut i: usize = start;
    while i < s.len()
        invariant
            start <= i <= s.len(),
            radix == 10 || radix == 16,
            d =~= s@.skip(start as int),
            d == (if s@.len() > 0 && s@[0] == '+' {
                s@.drop_first()
            } else {
                s@
            }),
            v as nat == digits_value(d.take(i - start), radix as nat),
            v <= max,
            all_radix_digits(d.take(i - start), radix as nat),
        decreases s.len() - i,
    {
        let c = s[i];
        let ok = if radix == 16 {
            is_hex_digit_char(c)
        } else {
            is_digit_char(c)
        };
        assert(d[i - start] == c);
        if !ok {
            assert(!is_radix_digit(d[i - start], radix as nat));
            assert(!all_radix_digits(d, radix as nat));
            return None;
        }
        let dv = digit_value_exec(c);
        assert((v as int) * (radix as int) <= 0xffff_ffff_ffff_ffff * 16) by (nonlinear_arith)
            requires
                v <= 0xffff_ffff_ffff_ffffu64,
                radix <= 16,
        ;
        let wide: u128 = (v as u128) * (radix as u128) + (dv as u128);
        let ghost t = d.take(i - start + 1);
        assert(t.drop_last() =~= d.take(i - start));
        assert(t.last() == c);
        assert(digits_value(t, radix as nat) == wide);
        if wide > max as u128 {
            proof {
                lemma_digits_value_grows(d, radix as nat, i - start + 1);
            }
            return None;
        }
        v = wide as u64;
        i += 1;
        assert forall|k: int| 0 <= k < t.len() implies is_radix_digit(#[trigger] t[k], radix as nat) by {
            if k < t.len() - 1 {
                assert(t[k] == d.take(i - 1 - start)[k]);
            }
        }
    }
    assert(d.take(i - start) =~= d);
    Some(v)
}

pub fn parse_unsigned_str(s: &str, radix: u64, max: u64) -> (r: Option<u64>)
    requires
        radix == 10 || radix == 16,
    ensures
        match r {
            Some(v) => parse_unsigned(s@, radix as nat, max as nat) == Some(v as nat),
            None => parse_unsigned(s@, radix as nat, max as nat) is None,
        },
{
    let v = chars_of(s);
    parse_unsigned_vec(&v, radix, max)
}

/// The character of a digit below 16, lower case.
pub open spec fn hex_char(n: nat) -> char {
    if n < 10 {
        ((n + ('0' as u32)) as u32) as char
    } else {
        ((n - 10 + ('a' as u32)) as u32) as char
    }
}

/// Decimal text of `n`, as `Display` writes it.
pub open spec fn decimal(n: nat) -> Seq<char>
    decreases n,
{
    if n < 10 {
        seq![hex_char(n)]
    } else {
        decimal(n / 10).push(hex_char(n % 10))
    }
}

/// Decimal text of a signed value.
pub open spec fn signed_decimal(v: int) -> Seq<char> {
    if v < 0 {
        seq!['-'] + decimal((-v) as nat)
    } else {
        decimal(v as nat)
    }
}

/// Two lower-case hex digits of a byte, as `{:02x}` writes them.
pub open spec fn hex2(b: u8) -> Seq<char> {
    seq![hex_char((b / 16) as nat), hex_char((b % 16) as nat)]
}

pub fn hex_char_exec(n: u64) -> (c: char)
    requires
        n < 16,
    ensures
        c == hex_char(n as nat),
{
    if n < 10 {
        ((n as u8) + 48) as char
    } else {
        ((n as u8) - 10 + 97) as char
    }
}

/// Appends the decimal text of `n`.
pub fn push_decimal(out: &mut Vec<char>, n: u64)
    ensures
        final(out)@ == old(out)@ + decimal(n as nat),
    decreases n,
{
    if n < 10 {
        out.push(hex_char_exec(n));
        assert(old(out)@ + decimal(n as nat) =~= old(out)@.push(hex_char(n as nat)));
    } else {
        push_decimal(out, n / 10);
        out.push(hex_char_exec(n % 10));
        assert(old(out)@ + decimal(n as nat) =~= old(out)@ + decimal((n / 10) as nat) + seq![
            hex_char((n % 10) as nat),
        ]);
    }
}

/// Appends the decimal text of a signed value.
pub fn push_signed_decimal(out: &mut Vec<char>, v: i64)
    ensures
        final(out)@ == old(out)@ + signed_decimal(v as int),
{
    if v < 0 {
        out.push('-');
        let m: u64 = if v == i64::MIN {
            0x8000_0000_0000_0000u64
        } else {
            (-v) as u64
        };
        push_decimal(out, m);
        assert(old(out)@ + signed_decimal(v as int) =~= old(out)@.push('-') + decimal(m as nat));
    } else {
        push_decimal(out, v as u64);
    }
}

/// Decimal text of an unsigned value as a `String` (`u64::to_string`).
pub fn decimal_string(n: u64) -> (s: String)
    ensures
        s@ == decimal(n as nat),
{
    let mut v: Vec<char> = Vec::new();
    push_decimal(&mut v, n);
    assert(v@ =~= decimal(n as nat));
    string_of(v.as_slice())
}

/// Appends `{:02x}` of a byte.
pub fn push_hex2(out: &mut Vec<char>, b: u8)
    ensures
        final(out)@ == old(out)@ + hex2(b),
{
    out.push(hex_char_exec((b / 16) as u64));
    out.push(hex_char_exec((b % 16) as u64));
    assert(old(out)@ + hex2(b) =~= old(out)@.push(hex_char((b / 16) as nat)).push(
        hex_char((b % 16) as nat),
    ));
}

pub proof fn lemma_hex_char_digit(d: nat)
    requires
        d < 10,
    ensures
        crate::text::is_digit(hex_char(d)),
        is_radix_digit(hex_char(d), 10),
        digit_value(hex_char(d)) == d,
        hex_char(d) != '+',
{
}

/// The decimal text of `n` is one or more digits whose value is `n`.
pub proof fn lemma_decimal(n: nat)
    ensures
        decimal(n).len() >= 1,
        all_radix_digits(decimal(n), 10),
        digits_value(decimal(n), 10) == n,
        decimal(n)[0] != '+',
    decreases n,
{
    if n < 10 {
        lemma_hex_char_digit(n);
        let s = decimal(n);
        assert(s.drop_last() =~= Seq::<char>::empty());
        assert(digits_value(s.drop_last(), 10) == 0);
        assert(digits_value(s, 10) == digits_value(s.drop_last(), 10) * 10 + digit_value(s.last()));
    } else {
        lemma_decimal(n / 10);
        lemma_hex_char_digit(n % 10);
        let s = decimal(n);
        assert(s.drop_last() =~= decimal(n / 10));
        assert(s[0] == decimal(n / 10)[0]);
        assert((n / 10) * 10 + n % 10 == n) by (nonlinear_arith);
        assert(digits_value(s, 10) == digits_value(s.drop_last(), 10) * 10 + digit_value(s.last()));
        assert forall|i: int| 0 <= i < s.len() implies is_radix_digit(#[trigger] s[i], 10) by {
            if i < s.len() - 1 {
                assert(s[i] == decimal(n / 10)[i]);
            }
        }
    }
}

/// Parsing the decimal text of `n` gives `n` back, when it fits.
pub proof fn lemma_parse_decimal(n: nat, max: nat)
    requires
        n <= max,
    ensures
        parse_unsigned(decimal(n), 10, max) == Some(n),
{
    lemma_decimal(n);
}

} // verus!
