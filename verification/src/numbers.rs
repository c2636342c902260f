//! Decimal and hexadecimal rendering and parsing of integers, following
//! what `format!("{}")`, `format!("{:0Nx}")` and `str::parse` do.
use vstd::prelude::*;

verus! {

pub open spec fn digit_char(d: nat) -> char {
    ((d + 48) as u32) as char
}

/// `format!("{n}")` for a non-negative number.
pub open spec fn dec(n: nat) -> Seq<char>
    decreases n,
{
    if n < 10 {
        seq![digit_char(n)]
    } else {
        dec(n / 10).push(digit_char(n % 10))
    }
}

/// `format!("{n}")` for a signed number.
pub open spec fn dec_int(n: int) -> Seq<char> {
    if n < 0 {
        seq!['-'] + dec((-n) as nat)
    } else {
        dec(n as nat)
    }
}

/// The value of a digit character.
pub open spec fn digit_val(c: char) -> nat {
    ((c as u32) - 48) as nat
}

pub open spec fn all_digits(s: Seq<char>) -> bool {
    forall|i: int| 0 <= i < s.len() ==> '0' <= #[trigger] s[i] <= '9'
}

/// The number a string of decimal digits spells.
pub open spec fn digits_val(s: Seq<char>) -> nat
    decreases s.len(),
{
    if s.len() == 0 {
        0
    } else {
        digits_val(s.drop_last()) * 10 + digit_val(s.last())
    }
}

/// `<u64 as FromStr>::from_str`: an optional `+`, then one or more decimal
/// digits whose value fits.
pub open spec fn parse_u64(s: Seq<char>) -> Option<u64> {
    let d = if s.len() > 0 && s[0] == '+' {
        s.skip(1)
    } else {
        s
    };
    if d.len() > 0 && all_digits(d) && digits_val(d) <= u64::MAX {
        Some(digits_val(d) as u64)
    } else {
        None
    }
}

/// `<i64 as FromStr>::from_str`: an optional sign, then one or more decimal
/// digits whose (signed) value fits.
pub open spec fn parse_i64(s: Seq<char>) -> Option<i64> {
    let neg = s.len() > 0 && s[0] == '-';
    let d = if s.len() > 0 && (s[0] == '+' || s[0] == '-') {
        s.skip(1)
    } else {
        s
    };
    if d.len() > 0 && all_digits(d) {
        if neg && digits_val(d) <= 0x8000_0000_0000_0000 {
            Some((-(digits_val(d) as int)) as i64)
        } else if !neg && digits_val(d) <= i64::MAX {
            Some(digits_val(d) as i64)
        } else {
            None
        }
    } else {
        None
    }
}

pub proof fn lemma_dec_digits(n: nat)
    ensures
        dec(n).len() > 0,
        all_digits(dec(n)),
        digits_val(dec(n)) == n,
        dec(n)[0] != '+' && dec(n)[0] != '-',
    decreases n,
{
    if n < 10 {
        assert(dec(n).drop_last() =~= Seq::<char>::empty());
        assert(digit_val(digit_char(n)) == n);
        assert(digits_val(dec(n)) == digits_val(dec(n).drop_last()) * 10 + digit_val(dec(n).last()));
    } else {
        lemma_dec_digits(n / 10);
        let s = dec(n);
        assert(s.drop_last() == dec(n / 10));
        assert(n == (n / 10) * 10 + n % 10) by (nonlinear_arith);
        assert(digit_val(digit_char(n % 10)) == n % 10);
        assert(s.last() == digit_char(n % 10));
        assert(digits_val(s) == digits_val(s.drop_last()) * 10 + digit_val(s.last()));
        assert(digits_val(s) == (n / 10) * 10 + n % 10);
        assert forall|i: int| 0 <= i < s.len() implies '0' <= #[trigger] s[i] <= '9' by {
            if i < s.len() - 1 {
                assert(s[i] == dec(n / 10)[i]);
            }
        }
    }
}

/// Parsing what `dec_int` renders gives the number back.
pub proof fn lemma_parse_dec_int(n: i64)
    ensures
        parse_i64(dec_int(n as int)) == Some(n),
{
    if n < 0 {
        let m = (-(n as int)) as nat;
        lemma_dec_digits(m);
        assert((seq!['-'] + dec(m)).skip(1) =~= dec(m));
    } else {
        lemma_dec_digits(n as nat);
    }
}

fn digit(d: u64) -> (c: char)
    requires
        d < 10,
    ensures
        c == digit_char(d as nat),
{
    ((d as u8) + 48) as char
}

/// `format!("{n}")`.
pub fn fmt_u64(n: u64) -> (out: Vec<char>)
    ensures
        out@ == dec(n as nat),
    decreases n,
{
    if n < 10 {
        let mut v = Vec::new();
        v.push(digit(n));
        v
    } else {
        let mut v = fmt_u64(n / 10);
        v.push(digit(n % 10));
        v
    }
}

/// `format!("{n}")`.
pub fn fmt_i64(n: i64) -> (out: Vec<char>)
    ensures
        out@ == dec_int(n as int),
{
    if n < 0 {
        let mag: u64 = if n == i64::MIN {
            0x8000_0000_0000_0000
        } else {
            (-n) as u64
        };
        let mut v = Vec::new();
        v.push('-');
        let d = fmt_u64(mag);
        crate::strings::push_chars(&mut v, d.as_slice());
        v
    } else {
        fmt_u64(n as u64)
    }
}

proof fn lemma_digits_val_prefix(s: Seq<char>, k: int)
    requires
        0 <= k <= s.len(),
    ensures
        digits_val(s.take(k)) <= digits_val(s),
    decreases s.len() - k,
{
    if k < s.len() {
        lemma_digits_val_prefix(s, k + 1);
        assert(s.take(k + 1).drop_last() == s.take(k));
    } else {
        assert(s.take(k) == s);
    }
}

/// Accumulates the digits of `d` with the bound `max`; `None` when a
/// non-digit is met or the value exceeds `max`.
fn digits_upto(d: &[char], from: usize, max: u64) -> (r: Option<u64>)
    requires
        from <= d@.len(),
        max >= 9,
    ensures
        r matches Some(v) ==> all_digits(d@.skip(from as int)) && digits_val(d@.skip(from as int)) == v
            && v <= max,
        r is None ==> !all_digits(d@.skip(from as int)) || digits_val(d@.skip(from as int)) > max,
{
    let ghost s = d@.skip(from as int);
    let mut acc: u64 = 0;
    let mut i = from;
    while i < d.len()
        invariant
            from <= i <= d@.len(),
            s == d@.skip(from as int),
            all_digits(s.take(i - from)),
            acc == digits_val(s.take(i - from)),
            acc <= max,
            max >= 9,
        decreases d@.len() - i,
    {
        let c = d[i];
        assert(s.take(i - from + 1).drop_last() == s.take(i - from));
        assert(s[i - from] == c);
        if !('0' <= c && c <= '9') {
            assert(!all_digits(s));
            return None;
        }
        assert(48 <= c as u32 <= 57);
        let dv = (c as u32 - 48) as u64;
        assert(dv <= 9);
        if acc > (max - dv) / 10 {
            assert(digits_val(s.take(i - from + 1)) > max) by (nonlinear_arith)
                requires
                    digits_val(s.take(i - from + 1)) == acc * 10 + dv,
                    acc > (max - dv) / 10,
                    dv <= 9,
                    dv <= max || true,
            {
            }
            proof {
                lemma_digits_val_prefix(s, i - from + 1);
            }
            return None;
        }
        assert(acc * 10 + dv <= max) by (nonlinear_arith)
            requires
                acc <= (max - dv) / 10,
                dv <= max,
        {
        }
        acc = acc * 10 + dv;
        i += 1;
        assert(all_digits(s.take(i - from))) by {
            assert forall|j: int| 0 <= j < s.take(i - from).len() implies '0' <= #[trigger] s.take(
                i - from,
            )[j] <= '9' by {
                if j < i - from - 1 {
                    assert(s.take(i - from)[j] == s.take(i - from - 1)[j]);
                }
            }
        }
    }
    assert(s.take(i - from) == s);
    Some(acc)
}

/// `str::parse::<u64>()`, on characters.
pub fn parse_u64_chars(s: &[char]) -> (r: Option<u64>)
    ensures
        r == parse_u64(s@),
{
    let from: usize = if s.len() > 0 && s[0] == '+' {
        1
    } else {
        0
    };
    let ghost d = if s@.len() > 0 && s@[0] == '+' {
        s@.skip(1)
    } else {
        s@
    };
    assert(s@.skip(from as int) == d);
    if from == s.len() {
        return None;
    }
    proof {
        if digits_val(d) > u64::MAX {
        }
    }
    match digits_upto(s, from, u64::MAX) {
        Some(v) => Some(v),
        None => None,
    }
}

/// `str::parse::<i64>()`, on characters.
pub fn parse_i64_chars(s: &[char]) -> (r: Option<i64>)
    ensures
        r == parse_i64(s@),
{
    let neg = s.len() > 0 && s[0] == '-';
    let from: usize = if s.len() > 0 && (s[0] == '+' || s[0] == '-') {
        1
    } else {
        0
    };
    let ghost d = if s@.len() > 0 && (s@[0] == '+' || s@[0] == '-') {
        s@.skip(1)
    } else {
        s@
    };
    assert(s@.skip(from as int) == d);
    if from == s.len() {
        return None;
    }
    let max: u64 = if neg {
        0x8000_0000_0000_0000
    } else {
        0x7fff_ffff_ffff_ffff
    };
    match digits_upto(s, from, max) {
        Some(v) => {
            if neg {
                if v == 0x8000_0000_0000_0000 {
                    Some(i64::MIN)
                } else {
                    Some(-(v as i64))
                }
            } else {
                Some(v as i64)
            }
        },
        None => None,
    }
}

pub open spec fn hex_digit_char(d: nat) -> char {
    if d < 10 {
        ((d + 48) as u32) as char
    } else {
        ((d + 87) as u32) as char
    }
}

/// `format!("{:0w$x}", n)` for `n < 16^w`: exactly `w` lowercase hex digits.
pub open spec fn hex_fixed(n: nat, w: nat) -> Seq<char>
    decreases w,
{
    if w == 0 {
        Seq::empty()
    } else {
        hex_fixed(n / 16, (w - 1) as nat).push(hex_digit_char(n % 16))
    }
}

pub proof fn lemma_hex_fixed_len(n: nat, w: nat)
    ensures
        hex_fixed(n, w).len() == w,
    decreases w,
{
    if w > 0 {
        lemma_hex_fixed_len(n / 16, (w - 1) as nat);
    }
}

fn hex_digit(d: u64) -> (c: char)
    requires
        d < 16,
    ensures
        c == hex_digit_char(d as nat),
{
    if d < 10 {
        ((d as u8) + 48) as char
    } else {
        ((d as u8) + 87) as char
    }
}

/// `w` lowercase hex digits of `n` (zero-padded, high digits dropped past `w`).
pub fn fmt_hex(n: u64, w: usize) -> (out: Vec<char>)
    ensures
        out@ == hex_fixed(n as nat, w as nat),
    decreases w,
{
    if w == 0 {
        Vec::new()
    } else {
        let mut v = fmt_hex(n / 16, w - 1);
        v.push(hex_digit(n % 16));
        v
    }
}

/// The value of a hexadecimal digit, as `u8::from_str_radix(_, 16)` reads it.
pub open spec fn hex_val(b: u8) -> Option<u8> {
    if 48 <= b <= 57 {
        Some((b - 48) as u8)
    } else if 97 <= b <= 102 {
        Some((b - 87) as u8)
    } else if 65 <= b <= 70 {
        Some((b - 55) as u8)
    } else {
        None
    }
}

/// `u8::from_str_radix(s, 16)` for a two-byte `s`: an optional `+` sign,
/// then hex digits.
pub open spec fn hex_pair(a: u8, b: u8) -> Option<u8> {
    if a == 43 {
        hex_val(b)
    } else {
        match (hex_val(a), hex_val(b)) {
            (Some(x), Some(y)) => Some((x * 16 + y) as u8),
            _ => None,
        }
    }
}

pub fn hex_val_exec(b: u8) -> (r: Option<u8>)
    ensures
        r == hex_val(b),
{
    if 48 <= b && b <= 57 {
        Some(b - 48)
    } else if 97 <= b && b <= 102 {
        Some(b - 87)
    } else if 65 <= b && b <= 70 {
        Some(b - 55)
    } else {
        None
    }
}

pub fn hex_pair_exec(a: u8, b: u8) -> (r: Option<u8>)
    ensures
        r == hex_pair(a, b),
{
    if a == 43 {
        hex_val_exec(b)
    } else {
        match (hex_val_exec(a), hex_val_exec(b)) {
            (Some(x), Some(y)) => Some(x * 16 + y),
            _ => None,
        }
    }
}

} // verus!

verus! {

/// Integer division rounding toward zero, as Rust's `/` on signed integers.
pub open spec fn tdiv(x: int, d: int) -> int {
    if x >= 0 {
        x / d
    } else {
        -((-x) / d)
    }
}

/// Remainder with the sign of the dividend, as Rust's `%` on signed integers.
pub open spec fn trem(x: int, d: int) -> int {
    x - tdiv(x, d) * d
}

} // verus!
