//! Building diagnostic text: hexadecimal and decimal numerals appended to a `String`.
//!
//! The numerals are specified as sequences of characters, so that every message of
//! the crate has an exact mathematical description.

use vstd::prelude::*;

verus! {

/// `String::push` appends exactly the given character.
pub assume_specification[ String::push ](s: &mut String, c: char)
    ensures
        final(s)@ == old(s)@.push(c),
;

/// The character that writes the digit `d` (below sixteen) in hexadecimal.
pub open spec fn hex_char(d: int, upper: bool) -> char {
    if upper {
        "0123456789ABCDEF"@[d]
    } else {
        "0123456789abcdef"@[d]
    }
}

/// The hexadecimal numeral of `n`, most significant digit first, without padding.
pub open spec fn hex_digits(n: nat, upper: bool) -> Seq<char>
    decreases n,
{
    if n < 16 {
        seq![hex_char(n as int, upper)]
    } else {
        hex_digits(n / 16, upper).push(hex_char((n % 16) as int, upper))
    }
}

/// The hexadecimal numeral of `n`, filled with leading zeros up to `width` characters.
pub open spec fn hex_padded(n: nat, upper: bool, width: nat) -> Seq<char> {
    let digits = hex_digits(n, upper);
    if digits.len() >= width {
        digits
    } else {
        Seq::new((width - digits.len()) as nat, |i: int| '0') + digits
    }
}

/// The decimal numeral of `n`, most significant digit first.
pub open spec fn dec_digits(n: nat) -> Seq<char>
    decreases n,
{
    if n < 10 {
        seq!["0123456789"@[n as int]]
    } else {
        dec_digits(n / 10).push("0123456789"@[(n % 10) as int])
    }
}

/// The text of a truth value, as `true` or `false`.
pub open spec fn bool_text(b: bool) -> Seq<char> {
    if b {
        "true"@
    } else {
        "false"@
    }
}

/// One hexadecimal digit as a character.
pub fn hex_digit(d: u8, upper: bool) -> (c: char)
    requires
        d < 16,
    ensures
        c == hex_char(d as int, upper),
{
    proof {
        reveal_strlit("0123456789ABCDEF");
        reveal_strlit("0123456789abcdef");
    }
    if d < 10 {
        match d {
            0 => '0',
            1 => '1',
            2 => '2',
            3 => '3',
            4 => '4',
            5 => '5',
            6 => '6',
            7 => '7',
            8 => '8',
            _ => '9',
        }
    } else if upper {
        match d {
            10 => 'A',
            11 => 'B',
            12 => 'C',
            13 => 'D',
            14 => 'E',
            _ => 'F',
        }
    } else {
        match d {
            10 => 'a',
            11 => 'b',
            12 => 'c',
            13 => 'd',
            14 => 'e',
            _ => 'f',
        }
    }
}

/// Appends the hexadecimal numeral of `n` to `out`.
pub fn push_hex(out: &mut String, n: u64, upper: bool)
    ensures
        final(out)@ == old(out)@ + hex_digits(n as nat, upper),
    decreases n,
{
    if n >= 16 {
        push_hex(out, n / 16, upper);
    }
    let digit: u8 = (n % 16) as u8;
    out.push(hex_digit(digit, upper));
}

/// Number of characters in the hexadecimal numeral of `n`.
pub fn hex_len(n: u64) -> (len: usize)
    ensures
        len == hex_digits(n as nat, true).len(),
        len == hex_digits(n as nat, false).len(),
        1 <= len <= 16,
    decreases n,
{
    if n >= 16 {
        let rest: usize = hex_len(n / 16);
        proof {
            lemma_hex_len_bound(n as nat);
        }
        rest + 1
    } else {
        1
    }
}

/// A numeral below `16^k` has at most `k` digits; here for the sixteen digits of a `u64`.
proof fn lemma_hex_len_bound(n: nat)
    requires
        n <= u64::MAX,
    ensures
        hex_digits(n, true).len() <= 16,
        hex_digits(n, true).len() == hex_digits(n, false).len(),
{
    assert(pow16(16) == 0x1_0000_0000_0000_0000) by {
        reveal_with_fuel(pow16, 17);
    }
    lemma_hex_len_step(n, 16);
}

spec fn pow16(k: nat) -> nat
    decreases k,
{
    if k == 0 {
        1
    } else {
        16 * pow16((k - 1) as nat)
    }
}

proof fn lemma_hex_len_step(n: nat, k: nat)
    requires
        k >= 1,
        n < pow16(k),
    ensures
        hex_digits(n, true).len() <= k,
        hex_digits(n, true).len() == hex_digits(n, false).len(),
        hex_digits(n, true).len() >= 1,
    decreases n,
{
    if n >= 16 {
        assert(pow16(1) == 16) by {
            assert(pow16(0) == 1);
        }
        assert(k >= 2);
        assert(pow16(k) == 16 * pow16((k - 1) as nat));
        lemma_hex_len_step(n / 16, (k - 1) as nat);
    }
}

/// Filling up to one character adds nothing: every numeral has a digit.
pub proof fn lemma_hex_padded_one(n: nat, upper: bool)
    ensures
        hex_padded(n, upper, 1) == hex_digits(n, upper),
        hex_digits(n, upper).len() >= 1,
    decreases n,
{
    if n >= 16 {
        lemma_hex_padded_one(n / 16, upper);
    }
}

/// Appends the hexadecimal numeral of `n`, filled with leading zeros up to `width`
/// characters.
pub fn push_hex_padded(out: &mut String, n: u64, upper: bool, width: usize)
    ensures
        final(out)@ == old(out)@ + hex_padded(n as nat, upper, width as nat),
{
    let len: usize = hex_len(n);
    let ghost start = out@;
    let mut filled: usize = len;
    while filled < width
        invariant
            len <= filled,
            filled <= width || filled == len,
            out@ == start + Seq::new((filled - len) as nat, |i: int| '0'),
        decreases width - filled,
    {
        out.push('0');
        filled = filled + 1;
    }
    push_hex(out, n, upper);
}

/// Appends the decimal numeral of `n` to `out`.
pub fn push_dec(out: &mut String, n: u64)
    ensures
        final(out)@ == old(out)@ + dec_digits(n as nat),
    decreases n,
{
    proof {
        reveal_strlit("0123456789");
    }
    if n >= 10 {
        push_dec(out, n / 10);
    }
    let digit: u8 = (n % 10) as u8;
    out.push(hex_digit(digit, false));
    proof {
        reveal_strlit("0123456789abcdef");
    }
}

/// Appends `true` or `false` to `out`.
pub fn push_bool(out: &mut String, b: bool)
    ensures
        final(out)@ == old(out)@ + bool_text(b),
{
    if b {
        out.append("true");
    } else {
        out.append("false");
    }
}

} // verus!
