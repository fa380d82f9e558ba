//! Positional notation: what a string of digits denotes in a given base,
//! and how a number is written in it.
//!
//! The digits are `0` to `9` and the letters `a` to `z`, so that the bases
//! from 2 to 36 have a character for each of their digits.

use vstd::prelude::*;

verus! {

/// The value of a character read as a digit: `0` to `9` are the digits zero
/// to nine, and the letters, in either case, the digits from ten to
/// thirty-five. No other character is a digit.
pub open spec fn digit_of(c: char) -> Option<nat> {
    if '0' <= c <= '9' {
        Some((c as nat - '0' as nat) as nat)
    } else if 'a' <= c <= 'z' {
        Some((c as nat - 'a' as nat + 10) as nat)
    } else if 'A' <= c <= 'Z' {
        Some((c as nat - 'A' as nat + 10) as nat)
    } else {
        None
    }
}

/// The digit that `c` stands for, and zero where it stands for none.
pub open spec fn digit_value(c: char) -> nat {
    match digit_of(c) {
        Some(d) => d,
        None => 0,
    }
}

/// Whether `c` is a digit of the base `radix`: one whose value is below it.
pub open spec fn is_digit_in(c: char, radix: nat) -> bool {
    digit_of(c) matches Some(d) && d < radix
}

/// Whether every character of `s` is a digit of the base `radix`.
pub open spec fn all_digits(s: Seq<char>, radix: nat) -> bool {
    forall|i: int| 0 <= i < s.len() ==> is_digit_in(#[trigger] s[i], radix)
}

/// The number that the digits `s` denote in the base `radix`, the most
/// significant digit first. The empty string denotes zero.
pub open spec fn value_of(s: Seq<char>, radix: nat) -> nat
    decreases s.len(),
{
    if s.len() == 0 {
        0
    } else {
        value_of(s.drop_last(), radix) * radix + digit_value(s.last())
    }
}

/// The number that `s` denotes as a numeral of the base `radix`: one digit
/// of the base or more, and nothing else, neither sign nor space. Letters
/// count in either case. `None` where `s` is no such numeral.
pub open spec fn denoted(s: Seq<char>, radix: nat) -> Option<nat> {
    if s.len() > 0 && all_digits(s, radix) {
        Some(value_of(s, radix))
    } else {
        None
    }
}

/// `denoted`, kept to what a `u64` holds: the numeral of a larger number
/// reads as `None`.
pub open spec fn denoted_u64(s: Seq<char>, radix: nat) -> Option<u64> {
    match denoted(s, radix) {
        Some(v) => if v <= u64::MAX {
            Some(v as u64)
        } else {
            None
        },
        None => None,
    }
}

/// The character that writes the digit `d`, with lowercase letters from ten on.
pub open spec fn digit_char(d: nat) -> char
    recommends
        d < 36,
{
    if d < 10 {
        ('0' as nat + d) as char
    } else {
        ('a' as nat + d - 10) as char
    }
}

/// How `n` is written in the base `radix`: its digits, the most significant
/// first, with no sign, no prefix and no padding. Zero is the single digit `0`.
pub open spec fn numeral(n: nat, radix: nat) -> Seq<char>
    recommends
        2 <= radix <= 36,
    decreases n,
{
    if radix < 2 || n < radix {
        seq![digit_char(n)]
    } else {
        proof {
            lemma_quotient_smaller(n, radix);
        }
        numeral(n / radix, radix).push(digit_char(n % radix))
    }
}

/// The digits that were split off a number, least significant first, in the
/// order in which they are written.
spec fn written(low: Seq<u64>) -> Seq<char> {
    Seq::new(low.len(), |k: int| digit_char(low[low.len() - 1 - k] as nat))
}

/// Dividing a number by a base that is no larger than it makes it strictly
/// smaller, and leaves a remainder below the base.
pub proof fn lemma_quotient_smaller(n: nat, radix: nat)
    requires
        2 <= radix <= n,
    ensures
        0 < n / radix < n,
        0 <= n % radix < radix,
        n == (n / radix) * radix + n % radix,
{
    assert(0 < n / radix < n && 0 <= n % radix < radix && n == (n / radix) * radix + n % radix)
        by (nonlinear_arith)
        requires
            2 <= radix <= n,
    ;
}

/// A digit written by `digit_char` reads back as itself. It is a character
/// from `0` to `9` or a lowercase letter, and it is `0` only for the digit
/// zero.
pub proof fn lemma_digit_char_reads_back(d: nat)
    requires
        d < 36,
    ensures
        digit_of(digit_char(d)) == Some(d),
        digit_value(digit_char(d)) == d,
        '0' <= digit_char(d) <= '9' || 'a' <= digit_char(d) <= 'z',
        digit_char(d) == '0' <==> d == 0,
{
}

/// Reading one more digit multiplies what was read by the base and adds the
/// digit.
pub proof fn lemma_value_push(s: Seq<char>, c: char, radix: nat)
    ensures
        value_of(s.push(c), radix) == value_of(s, radix) * radix + digit_value(c),
{
    assert(s.push(c).drop_last() =~= s);
}

/// The first `k + 1` digits denote the value of the first `k`, times the
/// base, plus the digit at `k`.
pub proof fn lemma_value_step(s: Seq<char>, k: int, radix: nat)
    requires
        0 <= k < s.len(),
    ensures
        value_of(s.take(k + 1), radix) == value_of(s.take(k), radix) * radix + digit_value(s[k]),
{
    assert(s.take(k + 1).drop_last() =~= s.take(k));
}

/// A prefix of a digit string denotes no more than the whole string.
pub proof fn lemma_value_prefix_le(s: Seq<char>, k: int, radix: nat)
    requires
        0 <= k <= s.len(),
        radix >= 1,
    ensures
        value_of(s.take(k), radix) <= value_of(s, radix),
    decreases s.len() - k,
{
    if k == s.len() {
        assert(s.take(k) =~= s);
    } else {
        lemma_value_step(s, k, radix);
        lemma_value_prefix_le(s, k + 1, radix);
        let v = value_of(s.take(k), radix);
        assert(v <= v * radix) by (nonlinear_arith)
            requires
                radix >= 1,
        ;
    }
}

/// A numeral is never empty, holds only digits of its base, and denotes the
/// number it was written for.
pub proof fn lemma_numeral_denotes(n: nat, radix: nat)
    requires
        2 <= radix <= 36,
    ensures
        numeral(n, radix).len() >= 1,
        all_digits(numeral(n, radix), radix),
        value_of(numeral(n, radix), radix) == n,
    decreases n,
{
    if n < radix {
        lemma_digit_char_reads_back(n);
        let s = seq![digit_char(n)];
        assert(value_of(s.drop_last(), radix) == 0);
        assert(value_of(s, radix) == 0 * radix + digit_value(s.last()));
    } else {
        lemma_quotient_smaller(n, radix);
        lemma_numeral_denotes(n / radix, radix);
        lemma_digit_char_reads_back(n % radix);
        lemma_value_push(numeral(n / radix, radix), digit_char(n % radix), radix);
    }
}

/// A numeral is in canonical form: its digits are `0` to `9` and lowercase
/// letters, and it starts with the digit `0` only where it is the numeral of
/// zero, which is `0` alone.
pub proof fn lemma_numeral_canonical(n: nat, radix: nat)
    requires
        2 <= radix <= 36,
    ensures
        numeral(n, radix).len() >= 1,
        forall|i: int|
            0 <= i < numeral(n, radix).len() ==> {
                let c = #[trigger] numeral(n, radix)[i];
                '0' <= c <= '9' || 'a' <= c <= 'z'
            },
        numeral(n, radix)[0] == '0' <==> n == 0,
        n == 0 ==> numeral(n, radix) =~= seq!['0'],
        n < radix <==> numeral(n, radix).len() == 1,
    decreases n,
{
    if n < radix {
        lemma_digit_char_reads_back(n);
    } else {
        lemma_quotient_smaller(n, radix);
        lemma_numeral_canonical(n / radix, radix);
        lemma_digit_char_reads_back(n % radix);
    }
}

/// A numeral reads back as the number it was written for.
pub proof fn lemma_numeral_reads_back(n: nat, radix: nat)
    requires
        2 <= radix <= 36,
    ensures
        denoted(numeral(n, radix), radix) == Some(n),
{
    lemma_numeral_denotes(n, radix);
}

/// A string with a character outside ASCII is no numeral.
pub proof fn lemma_non_ascii_denotes_nothing(s: Seq<char>, radix: nat)
    requires
        !vstd::utf8::is_ascii_chars(s),
    ensures
        denoted(s, radix) is None,
{
    let i = choose|i: int| 0 <= i < s.len() && !('\0' <= #[trigger] s[i] <= '\u{7f}');
    assert(!is_digit_in(s[i], radix));
}

const ASCII_ZERO: u8 = 48;

const ASCII_NINE: u8 = 57;

const ASCII_UPPER_A: u8 = 65;

const ASCII_UPPER_Z: u8 = 90;

const ASCII_LOWER_A: u8 = 97;

const ASCII_LOWER_Z: u8 = 122;

/// The digit that the ASCII character `b` stands for, if it stands for one.
fn byte_digit(b: u8) -> (d: Option<u32>)
    requires
        b < 128,
    ensures
        d matches Some(v) ==> digit_of(b as char) == Some(v as nat),
        d is None ==> digit_of(b as char) is None,
{
    if ASCII_ZERO <= b && b <= ASCII_NINE {
        Some((b - ASCII_ZERO) as u32)
    } else if ASCII_LOWER_A <= b && b <= ASCII_LOWER_Z {
        Some((b - ASCII_LOWER_A) as u32 + 10)
    } else if ASCII_UPPER_A <= b && b <= ASCII_UPPER_Z {
        Some((b - ASCII_UPPER_A) as u32 + 10)
    } else {
        None
    }
}

/// The one-character string that writes the digit `d`.
fn digit_text(d: u64) -> (text: &'static str)
    requires
        d < 36,
    ensures
        text@ == seq![digit_char(d as nat)],
{
    let digits = "0123456789abcdefghijklmnopqrstuvwxyz";
    proof {
        reveal_strlit("0123456789abcdefghijklmnopqrstuvwxyz");
    }
    let at: usize = d as usize;
    digits.substring_ascii(at, at + 1)
}

/// Reads `s` as a numeral of the base `radix`: one digit of the base or
/// more, and nothing else. `None` where `s` is no such numeral, or denotes
/// more than a `u64` holds.
pub fn read_numeral(s: &str, radix: u32) -> (r: Option<u64>)
    ensures
        r == denoted_u64(s@, radix as nat),
{
    if !s.is_ascii() {
        proof {
            lemma_non_ascii_denotes_nothing(s@, radix as nat);
        }
        return None;
    }
    // In an ASCII string each byte is one character.
    let bytes = s.as_bytes();
    proof {
        vstd::string::is_ascii_spec_bytes(s);
    }
    let n: usize = bytes.len();
    if n == 0 {
        return None;
    }
    let base: u64 = radix as u64;
    let mut acc: u64 = 0;
    let mut i: usize = 0;
    while i < n
        invariant
            i <= n,
            n == s@.len(),
            n == bytes@.len(),
            base == radix,
            vstd::utf8::is_ascii_chars(s@),
            forall|k: int| 0 <= k < n ==> bytes@[k] == s@[k] as u8,
            all_digits(s@.take(i as int), radix as nat),
            acc == value_of(s@.take(i as int), radix as nat),
        decreases n - i,
    {
        let b: u8 = bytes[i];
        assert(s@[i as int] == b as char);
        let d: u32 = match byte_digit(b) {
            Some(d) => d,
            None => {
                return None;
            },
        };
        if d >= radix {
            return None;
        }
        // What was read so far is no more than the whole denotes, so an
        // overflow here means that the whole does not fit either.
        proof {
            lemma_value_step(s@, i as int, radix as nat);
            lemma_value_prefix_le(s@, i + 1, radix as nat);
        }
        let shifted: u64 = match acc.checked_mul(base) {
            Some(v) => v,
            None => {
                return None;
            },
        };
        acc = match shifted.checked_add(d as u64) {
            Some(v) => v,
            None => {
                return None;
            },
        };
        i = i + 1;
    }
    assert(s@.take(n as int) =~= s@);
    Some(acc)
}

/// Writes `n` in the base `radix`, which has a character for each of its
/// digits.
pub fn write_numeral(n: u64, radix: u32) -> (out: String)
    requires
        2 <= radix <= 36,
    ensures
        out@ == numeral(n as nat, radix as nat),
{
    let base: u64 = radix as u64;
    // Split the digits off from the least significant end; `rest` is what
    // is still to be written in front of them.
    let mut low: Vec<u64> = Vec::new();
    let mut rest: u64 = n;
    while rest >= base
        invariant
            base == radix,
            2 <= radix <= 36,
            forall|k: int| 0 <= k < low.len() ==> low[k] < base,
            numeral(n as nat, radix as nat) == numeral(rest as nat, radix as nat) + written(low@),
        decreases rest,
    {
        proof {
            lemma_quotient_smaller(rest as nat, radix as nat);
        }
        low.push(rest % base);
        rest = rest / base;
    }
    // Write the leading digit, then the others from the most significant.
    let ghost full = numeral(n as nat, radix as nat);
    let mut out = String::new();
    out.append(digit_text(rest));
    let mut i: usize = low.len();
    while i > 0
        invariant
            i <= low.len(),
            forall|k: int| 0 <= k < low.len() ==> low[k] < 36,
            full == seq![digit_char(rest as nat)] + written(low@),
            out@ == full.take(1 + low.len() - i),
        decreases i,
    {
        i = i - 1;
        out.append(digit_text(low[i]));
    }
    out
}

} // verus!
