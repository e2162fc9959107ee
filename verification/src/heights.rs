//! Block heights as the node encodes them: hex integer strings, usually
//! `0x`-prefixed. Parsing, formatting, the predecessor-height rule, and the
//! round-trip law between parsing and formatting.

use vstd::prelude::*;
use crate::types::WitnessError;

verus! {

/// A hex digit, either case. The numeral ranges are the ASCII codepoints of
/// `0`..`9`, `a`..`f` and `A`..`F`.
pub open spec fn is_hex_digit(c: char) -> bool {
    (48 <= c as u32 && c as u32 <= 57) || (97 <= c as u32 && c as u32 <= 102) || (65 <= c as u32
        && c as u32 <= 70)
}

/// The value of one hex digit (zero on a character that is none).
pub open spec fn hex_digit_value(c: char) -> nat {
    if 48 <= c as u32 && c as u32 <= 57 {
        (c as u32 - 48) as nat
    } else if 97 <= c as u32 && c as u32 <= 102 {
        (c as u32 - 87) as nat
    } else if 65 <= c as u32 && c as u32 <= 70 {
        (c as u32 - 55) as nat
    } else {
        0
    }
}

/// The value of a sequence of hex digits, most significant first.
pub open spec fn hex_value(s: Seq<char>) -> nat
    decreases s.len(),
{
    if s.len() == 0 {
        0
    } else {
        hex_value(s.drop_last()) * 16 + hex_digit_value(s.last())
    }
}

/// The digit part of a height string: what follows a leading `0x`, or the
/// whole string when there is no such prefix.
pub open spec fn height_digits(s: Seq<char>) -> Seq<char> {
    if s.len() >= 2 && s[0] == '0' && s[1] == 'x' {
        s.skip(2)
    } else {
        s
    }
}

/// A height string is valid when its digit part is nonempty and all hex.
pub open spec fn valid_height_str(s: Seq<char>) -> bool {
    &&& height_digits(s).len() > 0
    &&& forall|i: int| 0 <= i < height_digits(s).len() ==> is_hex_digit(#[trigger] height_digits(s)[i])
}

/// The height a valid height string denotes.
pub open spec fn height_value(s: Seq<char>) -> nat {
    hex_value(height_digits(s))
}

/// The value of a digit sequence never shrinks as digits are appended.
pub proof fn lemma_hex_value_prefix(s: Seq<char>, j: int)
    requires
        0 <= j <= s.len(),
    ensures
        hex_value(s) >= hex_value(s.take(j)),
    decreases s.len() - j,
{
    if j == s.len() {
        assert(s.take(j) =~= s);
    } else {
        assert(s.take(j + 1).drop_last() =~= s.take(j));
        assert(s.take(j + 1).last() == s[j]);
        assert(hex_value(s.take(j + 1)) == hex_value(s.take(j)) * 16 + hex_digit_value(s[j]));
        lemma_hex_value_prefix(s, j + 1);
    }
}

/// The value of one hex character, or nothing when the character is no hex
/// digit.
pub fn hex_digit_of(c: char) -> (r: Option<u8>)
    ensures
        match r {
            Some(v) => is_hex_digit(c) && v < 16 && v as nat == hex_digit_value(c),
            None => !is_hex_digit(c),
        },
{
    let u = c as u32;
    if 48 <= u && u <= 57 {
        Some((u - 48) as u8)
    } else if 97 <= u && u <= 102 {
        Some((u - 87) as u8)
    } else if 65 <= u && u <= 70 {
        Some((u - 55) as u8)
    } else {
        None
    }
}

/// Parses a hex height string (`0x`-prefixed or bare) into its value.
/// Succeeds exactly on valid height strings whose value fits a `u64`; any
/// other input is a `DecodeError` naming the offending string.
pub fn parse_height(s: &str) -> (r: Result<u64, WitnessError>)
    ensures
        match r {
            Ok(v) => {
                &&& valid_height_str(s@)
                &&& height_value(s@) <= u64::MAX
                &&& v as nat == height_value(s@)
            },
            Err(e) => {
                &&& !valid_height_str(s@) || height_value(s@) > u64::MAX
                &&& (e matches WitnessError::DecodeError { context } && context@
                    == "invalid block height "@ + s@)
            },
        },
{
    let len = s.unicode_len();
    let start: usize = if len >= 2 && s.get_char(0) == '0' && s.get_char(1) == 'x' {
        2
    } else {
        0
    };
    let ghost d: Seq<char> = height_digits(s@);
    proof {
        assert(d =~= s@.skip(start as int));
    }
    if start == len {
        return Err(invalid_height(s));
    }
    let mut acc: u64 = 0;
    let mut i: usize = start;
    while i < len
        invariant
            start <= i <= len,
            len == s@.len(),
            d == s@.skip(start as int),
            d == height_digits(s@),
            forall|j: int| 0 <= j < i - start ==> is_hex_digit(#[trigger] d[j]),
            acc as nat == hex_value(d.take(i - start)),
        decreases len - i,
    {
        let c = s.get_char(i);
        proof {
            assert(d[i - start] == s@[i as int]);
        }
        match hex_digit_of(c) {
            None => {
                proof {
                    assert(height_digits(s@)[i - start] == d[i - start]);
                    assert(!valid_height_str(s@));
                }
                return Err(invalid_height(s));
            },
            Some(v) => {
                proof {
                    assert(d.take(i - start + 1).drop_last() =~= d.take(i - start));
                    assert(d.take(i - start + 1).last() == d[i - start]);
                    assert(hex_value(d.take(i - start + 1)) == (acc as nat) * 16
                        + hex_digit_value(d[i - start]));
                }
                if acc > (u64::MAX - (v as u64)) / 16 {
                    proof {
                        let rest = (u64::MAX - v) as int;
                        assert(rest == 16 * (rest / 16) + rest % 16 && 0 <= rest % 16 < 16) by {
                            vstd::arithmetic::div_mod::lemma_fundamental_div_mod(rest, 16);
                            vstd::arithmetic::div_mod::lemma_mod_bound(rest, 16);
                        };
                        assert((acc as int) * 16 + v > u64::MAX) by (nonlinear_arith)
                            requires
                                acc as int > rest / 16,
                                rest == 16 * (rest / 16) + rest % 16,
                                0 <= rest % 16 < 16,
                                rest == u64::MAX - v,
                        ;
                        lemma_hex_value_prefix(d, i - start + 1);
                        assert(height_value(s@) > u64::MAX);
                    }
                    return Err(invalid_height(s));
                }
                acc = acc * 16 + (v as u64);
            },
        }
        i = i + 1;
    }
    proof {
        assert(d.take(len - start) =~= d);
    }
    Ok(acc)
}

/// Builds the error for a string that is no in-range block height.
fn invalid_height(s: &str) -> (e: WitnessError)
    ensures
        e matches WitnessError::DecodeError { context } && context@ == "invalid block height "@
            + s@,
{
    let mut context = String::new();
    context.append("invalid block height ");
    context.append(s);
    WitnessError::DecodeError { context }
}

/// The hex character of one digit value below sixteen.
pub open spec fn hex_char_of(d: nat) -> char {
    if d == 0 {
        '0'
    } else if d == 1 {
        '1'
    } else if d == 2 {
        '2'
    } else if d == 3 {
        '3'
    } else if d == 4 {
        '4'
    } else if d == 5 {
        '5'
    } else if d == 6 {
        '6'
    } else if d == 7 {
        '7'
    } else if d == 8 {
        '8'
    } else if d == 9 {
        '9'
    } else if d == 10 {
        'a'
    } else if d == 11 {
        'b'
    } else if d == 12 {
        'c'
    } else if d == 13 {
        'd'
    } else if d == 14 {
        'e'
    } else {
        'f'
    }
}

/// The shortest lowercase hex digit sequence of a number (a single `0` for
/// zero).
pub open spec fn hex_digits_of(n: nat) -> Seq<char>
    decreases n,
{
    if n < 16 {
        seq![hex_char_of(n)]
    } else {
        hex_digits_of(n / 16) + seq![hex_char_of(n % 16)]
    }
}

/// The canonical `0x`-prefixed lowercase hex string of a height.
pub open spec fn height_str_of(n: nat) -> Seq<char> {
    seq!['0', 'x'] + hex_digits_of(n)
}

/// The one-character string of one hex digit value.
fn hex_digit_str(d: u8) -> (r: &'static str)
    requires
        d < 16,
    ensures
        r@ == seq![hex_char_of(d as nat)],
{
    proof {
        reveal_strlit("0");
        reveal_strlit("1");
        reveal_strlit("2");
        reveal_strlit("3");
        reveal_strlit("4");
        reveal_strlit("5");
        reveal_strlit("6");
        reveal_strlit("7");
        reveal_strlit("8");
        reveal_strlit("9");
        reveal_strlit("a");
        reveal_strlit("b");
        reveal_strlit("c");
        reveal_strlit("d");
        reveal_strlit("e");
        reveal_strlit("f");
    }
    let r: &'static str = match d {
        0 => "0",
        1 => "1",
        2 => "2",
        3 => "3",
        4 => "4",
        5 => "5",
        6 => "6",
        7 => "7",
        8 => "8",
        9 => "9",
        10 => "a",
        11 => "b",
        12 => "c",
        13 => "d",
        14 => "e",
        _ => "f",
    };
    proof {
        assert(r@ =~= seq![hex_char_of(d as nat)]);
    }
    r
}

/// Appends the hex digits of a number to a string under construction.
fn push_hex_digits(h: u64, out: &mut String)
    ensures
        final(out)@ == old(out)@ + hex_digits_of(h as nat),
    decreases h,
{
    if h < 16 {
        out.append(hex_digit_str(h as u8));
    } else {
        push_hex_digits(h / 16, out);
        out.append(hex_digit_str((h % 16) as u8));
        proof {
            assert(old(out)@ + hex_digits_of((h / 16) as nat) + seq![
                hex_char_of((h % 16) as nat),
            ] =~= old(out)@ + hex_digits_of(h as nat));
        }
    }
}

/// Formats a height as its canonical `0x`-prefixed lowercase hex string.
pub fn format_height(h: u64) -> (r: String)
    ensures
        r@ == height_str_of(h as nat),
{
    let mut out = String::new();
    out.append("0x");
    push_hex_digits(h, &mut out);
    proof {
        reveal_strlit("0x");
        assert(out@ =~= height_str_of(h as nat));
    }
    out
}

/// The height preceding the given one. The genesis block has no predecessor:
/// rather than reuse block zero as its own predecessor, extraction fails fast
/// there with `GenesisBoundaryError`.
pub fn previous_height(h: u64) -> (r: Result<u64, WitnessError>)
    ensures
        match r {
            Ok(p) => h > 0 && p == h - 1,
            Err(e) => h == 0 && e == WitnessError::GenesisBoundaryError,
        },
{
    if h == 0 {
        Err(WitnessError::GenesisBoundaryError)
    } else {
        Ok(h - 1)
    }
}

/// Every digit a formatted number carries is a hex digit, and there is at
/// least one.
pub proof fn lemma_hex_digits_wf(n: nat)
    ensures
        hex_digits_of(n).len() > 0,
        forall|i: int|
            0 <= i < hex_digits_of(n).len() ==> is_hex_digit(#[trigger] hex_digits_of(n)[i]),
    decreases n,
{
    if n < 16 {
    } else {
        lemma_hex_digits_wf(n / 16);
    }
}

/// Parsing inverts formatting on the digit level: the digit sequence of a
/// number evaluates back to that number.
pub proof fn lemma_hex_digits_value(n: nat)
    ensures
        hex_value(hex_digits_of(n)) == n,
    decreases n,
{
    if n < 16 {
        assert(hex_value(seq![hex_char_of(n)].drop_last()) == 0) by {
            assert(seq![hex_char_of(n)].drop_last() =~= Seq::<char>::empty());
        }
    } else {
        lemma_hex_digits_value(n / 16);
        let s = hex_digits_of(n);
        assert(s.drop_last() =~= hex_digits_of(n / 16));
        assert(s.last() == hex_char_of(n % 16));
        assert(hex_value(s) == (n / 16) * 16 + hex_digit_value(hex_char_of(n % 16)));
        assert(hex_digit_value(hex_char_of(n % 16)) == n % 16);
        assert((n / 16) * 16 + n % 16 == n) by {
            vstd::arithmetic::div_mod::lemma_fundamental_div_mod(n as int, 16);
        }
    }
}

/// The round trip between formatting and parsing: the canonical hex string
/// of any height is a valid height string and denotes that height again.
pub proof fn lemma_height_roundtrip(n: nat)
    ensures
        valid_height_str(height_str_of(n)),
        height_value(height_str_of(n)) == n,
{
    let s = height_str_of(n);
    assert(height_digits(s) =~= hex_digits_of(n));
    lemma_hex_digits_wf(n);
    lemma_hex_digits_value(n);
}

} // verus!
