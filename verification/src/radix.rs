//! Radix prefixes, and conversion of numerals between the bases 2, 8, 10
//! and 16.
//!
//! Values are 64 bits wide: a numeral that denotes more than `u64::MAX`
//! (2^64 - 1) does not parse.

use crate::numeral::{
    all_digits, denoted_u64, is_digit_in, lemma_numeral_canonical, lemma_numeral_reads_back,
    numeral, read_numeral, value_of, write_numeral,
};
use vstd::prelude::*;

verus! {

/// Error type for radix conversions.
#[derive(Debug, PartialEq)]
pub enum RadixError {
    /// The string is no numeral of the radix, or denotes too large a number.
    UnableToParse(String, u32),
    /// The number cannot be written in the radix, which is none of 2, 8, 10, 16.
    UnableToFormat(u64, u32),
}

/// What a `RadixError` holds, with the string as its characters.
pub enum RadixErrorView {
    UnableToParse(Seq<char>, u32),
    UnableToFormat(u64, u32),
}

impl View for RadixError {
    type V = RadixErrorView;

    open spec fn view(&self) -> RadixErrorView {
        match self {
            RadixError::UnableToParse(s, radix) => RadixErrorView::UnableToParse(s@, *radix),
            RadixError::UnableToFormat(n, radix) => RadixErrorView::UnableToFormat(*n, *radix),
        }
    }
}

impl RadixErrorView {
    /// The line that reports the error: it names the string or number that
    /// failed, and the radix, which is written in decimal.
    pub open spec fn message(self) -> Seq<char> {
        match self {
            RadixErrorView::UnableToParse(s, radix) => "unable to parse '"@ + s
                + "' with radix "@ + numeral(radix as nat, 10),
            RadixErrorView::UnableToFormat(n, radix) => "unable to format "@ + numeral(
                n as nat,
                10,
            ) + ", with radix "@ + numeral(radix as nat, 10),
        }
    }
}

impl RadixError {
    /// The line that reports the error.
    pub fn message(&self) -> (text: String)
        ensures
            text@ == self@.message(),
    {
        match self {
            RadixError::UnableToParse(s, radix) => {
                let mut text = String::from_str("unable to parse '");
                text.append(s.as_str());
                text.append("' with radix ");
                text.append(write_numeral(*radix as u64, 10).as_str());
                text
            },
            RadixError::UnableToFormat(n, radix) => {
                let mut text = String::from_str("unable to format ");
                text.append(write_numeral(*n, 10).as_str());
                text.append(", with radix ");
                text.append(write_numeral(*radix as u64, 10).as_str());
                text
            },
        }
    }
}

/// Whether `part` stands somewhere in `text`, as consecutive characters.
pub open spec fn occurs_in(part: Seq<char>, text: Seq<char>) -> bool {
    exists|at: int|
        0 <= at <= text.len() - part.len() && #[trigger] text.subrange(at, at + part.len())
            == part
}

/// The view of a conversion's outcome: the characters of the string that
/// came out, or the view of the error.
pub open spec fn text_view(r: Result<String, RadixError>) -> Result<Seq<char>, RadixErrorView> {
    match r {
        Ok(text) => Ok(text@),
        Err(e) => Err(e@),
    }
}

/// The view of a parse's outcome: the number, or the view of the error.
pub open spec fn value_view(r: Result<u64, RadixError>) -> Result<u64, RadixErrorView> {
    match r {
        Ok(n) => Ok(n),
        Err(e) => Err(e@),
    }
}

/// How many characters at the start of `s` are its radix prefix: two for
/// `0x` and for `0b`, one for a leading `0`, none otherwise. A prefix counts
/// only where at least one character follows it, so that `0` alone is a
/// numeral without prefix, and `0x` alone is `x` with the prefix `0`.
pub open spec fn prefix_len(s: Seq<char>) -> int {
    if s.len() > 2 && s[0] == '0' && (s[1] == 'x' || s[1] == 'b') {
        2
    } else if s.len() > 1 && s[0] == '0' {
        1
    } else {
        0
    }
}

/// Where a numeral splits into its radix prefix and the rest.
pub open spec fn split_prefix(s: Seq<char>) -> (Seq<char>, Seq<char>) {
    (s.take(prefix_len(s)), s.skip(prefix_len(s)))
}

/// The radix that a prefix announces: `0b` binary, `0` octal, none decimal,
/// `0x` hexadecimal. Any other string announces nothing.
pub open spec fn prefix_radix(prefix: Seq<char>) -> Option<u32> {
    if prefix == seq!['0', 'b'] {
        Some(2u32)
    } else if prefix == seq!['0'] {
        Some(8u32)
    } else if prefix == Seq::<char>::empty() {
        Some(10u32)
    } else if prefix == seq!['0', 'x'] {
        Some(16u32)
    } else {
        None
    }
}

/// The radices that numbers can be written in.
pub open spec fn supported(radix: u32) -> bool {
    radix == 2 || radix == 8 || radix == 10 || radix == 16
}

/// What parsing `s` in the base `radix` gives: the number that `s` denotes,
/// or the error that names `s` and the radix where `s` is empty, holds a
/// character that is no digit of the radix, or denotes more than `u64::MAX`.
/// Letters count in either case, and nothing but digits may stand in `s`,
/// neither sign nor space. The radix may be any number: its digits are those
/// below it.
pub open spec fn parse_spec(s: Seq<char>, radix: u32) -> Result<u64, RadixErrorView> {
    match denoted_u64(s, radix as nat) {
        Some(n) => Ok(n),
        None => Err(RadixErrorView::UnableToParse(s, radix)),
    }
}

/// What formatting `n` in the base `radix` gives: the numeral of `n` where
/// the radix is supported, and else the error that names both.
pub open spec fn format_spec(n: u64, radix: u32) -> Result<Seq<char>, RadixErrorView> {
    if supported(radix) {
        Ok(numeral(n as nat, radix as nat))
    } else {
        Err(RadixErrorView::UnableToFormat(n, radix))
    }
}

/// What converting `s` from one radix to another gives: the parse error, or
/// else what formatting the parsed number gives.
pub open spec fn convert_spec(s: Seq<char>, from_radix: u32, to_radix: u32) -> Result<
    Seq<char>,
    RadixErrorView,
> {
    match parse_spec(s, from_radix) {
        Ok(n) => format_spec(n, to_radix),
        Err(e) => Err(e),
    }
}

/// The name of a radix.
pub open spec fn radix_name(radix: u32) -> Seq<char> {
    if radix == 2 {
        "binary"@
    } else if radix == 8 {
        "octal"@
    } else if radix == 10 {
        "decimal"@
    } else if radix == 16 {
        "hex"@
    } else {
        "radix-"@ + numeral(radix as nat, 10)
    }
}

/// Splits a numeral string on its radix prefix.
///
/// The prefix is `0x`, `0b`, a single `0`, or empty, and is taken only where
/// something is left behind it. The two parts put together are `s`.
pub fn strip_prefix(s: &str) -> (parts: (&str, &str))
    ensures
        (parts.0@, parts.1@) == split_prefix(s@),
        parts.0@ + parts.1@ == s@,
        prefix_radix(parts.0@) is Some,
{
    let n: usize = s.unicode_len();
    let cut: usize = if n > 2 && s.get_char(0) == '0' && (s.get_char(1) == 'x' || s.get_char(1)
        == 'b') {
        2
    } else if n > 1 && s.get_char(0) == '0' {
        1
    } else {
        0
    };
    proof {
        lemma_split_prefix(s@);
    }
    if cut == 0 {
        proof {
            reveal_strlit("");
        }
        ("", s)
    } else {
        (s.substring_char(0, cut), s.substring_char(cut, n))
    }
}

/// Returns the radix for a given numeral `prefix`. In the case of an invalid
/// prefix, `None` is returned. An empty `prefix` is interpreted as a radix of
/// 10.
pub fn detect(prefix: &str) -> (radix: Option<u32>)
    ensures
        radix == prefix_radix(prefix@),
{
    let n: usize = prefix.unicode_len();
    if n == 0 {
        assert(prefix@ =~= Seq::<char>::empty());
        Some(10)
    } else if n == 1 && prefix.get_char(0) == '0' {
        assert(prefix@ =~= seq!['0']);
        Some(8)
    } else if n == 2 && prefix.get_char(0) == '0' && prefix.get_char(1) == 'b' {
        assert(prefix@ =~= seq!['0', 'b']);
        Some(2)
    } else if n == 2 && prefix.get_char(0) == '0' && prefix.get_char(1) == 'x' {
        assert(prefix@ =~= seq!['0', 'x']);
        Some(16)
    } else {
        None
    }
}

/// Parses `s` as an unsigned numeral in the given `radix`. Letters count in
/// either case.
///
/// # Errors
///
/// Returns `UnableToParse` with `s` and `radix` if `s` is empty, holds a
/// character that is no digit of `radix`, or denotes more than `u64::MAX`.
pub fn parse(s: &str, radix: u32) -> (r: Result<u64, RadixError>)
    ensures
        value_view(r) == parse_spec(s@, radix),
{
    match read_numeral(s, radix) {
        Some(n) => Ok(n),
        None => Err(RadixError::UnableToParse(String::from_str(s), radix)),
    }
}

/// Converts `n` to a string using a given `radix`: lowercase digits, no
/// leading zeros, no prefix.
///
/// # Errors
///
/// Returns `UnableToFormat` with `n` and `radix` if `radix` is none of 2, 8,
/// 10 and 16.
pub fn format(n: u64, radix: u32) -> (r: Result<String, RadixError>)
    ensures
        text_view(r) == format_spec(n, radix),
{
    if radix == 2 || radix == 8 || radix == 10 || radix == 16 {
        Ok(write_numeral(n, radix))
    } else {
        Err(RadixError::UnableToFormat(n, radix))
    }
}

/// Converts a numeral string, `s`, from one radix to another.
///
/// # Parameters
///
/// * `s`: The string to convert. Should be a numeral string **without** a prefix.
/// * `from_radix`: The current radix of `s`.
/// * `to_radix`: The radix to convert `s` to.
///
/// # Errors
///
/// Returns `UnableToParse` if `s` is no numeral of the base `from_radix`, and
/// else `UnableToFormat` if `to_radix` is none of 2, 8, 10 and 16.
pub fn convert(s: &str, from_radix: u32, to_radix: u32) -> (r: Result<String, RadixError>)
    ensures
        text_view(r) == convert_spec(s@, from_radix, to_radix),
{
    match parse(s, from_radix) {
        Ok(n) => format(n, to_radix),
        Err(e) => Err(e),
    }
}

/// Returns a string representation of a given radix. For example, "hex" for
/// radix-16.
pub fn as_text(radix: u32) -> (name: String)
    ensures
        name@ == radix_name(radix),
{
    if radix == 2 {
        String::from_str("binary")
    } else if radix == 8 {
        String::from_str("octal")
    } else if radix == 10 {
        String::from_str("decimal")
    } else if radix == 16 {
        String::from_str("hex")
    } else {
        let mut name = String::from_str("radix-");
        name.append(write_numeral(radix as u64, 10).as_str());
        name
    }
}

/// A string splits into a prefix and a rest which, put together, are the
/// string. The prefix always announces a radix, which is a supported one,
/// and the rest is empty only where the string is.
pub proof fn lemma_split_prefix(s: Seq<char>)
    ensures
        split_prefix(s).0 + split_prefix(s).1 == s,
        prefix_radix(split_prefix(s).0) matches Some(radix) && supported(radix),
        split_prefix(s).1.len() == 0 <==> s.len() == 0,
{
    let cut = prefix_len(s);
    let prefix = s.take(cut);
    if cut == 2 {
        if s[1] == 'x' {
            assert(prefix =~= seq!['0', 'x']);
        } else {
            assert(prefix =~= seq!['0', 'b']);
        }
    } else if cut == 1 {
        assert(prefix =~= seq!['0']);
    } else {
        assert(prefix =~= Seq::<char>::empty());
    }
}

/// Round trip: a number written in a supported radix parses, in that radix,
/// as the number itself.
pub proof fn lemma_format_parse_round_trip(n: u64, radix: u32)
    requires
        supported(radix),
    ensures
        format_spec(n, radix) is Ok,
        parse_spec(format_spec(n, radix)->Ok_0, radix) == Ok::<u64, RadixErrorView>(n),
{
    lemma_numeral_reads_back(n as nat, radix as nat);
}

/// Formatting fails exactly for the radices that are not supported, whatever
/// the number, and with the error that names the number and the radix.
pub proof fn lemma_format_fails_outside_supported(n: u64, radix: u32)
    ensures
        format_spec(n, radix) is Err <==> !supported(radix),
        format_spec(n, radix) matches Err(e) ==> e == RadixErrorView::UnableToFormat(n, radix),
{
}

/// Into a supported radix, a conversion fails exactly where the parse does,
/// and with the parse's error.
pub proof fn lemma_convert_fails_only_on_parse(s: Seq<char>, from_radix: u32, to_radix: u32)
    requires
        supported(to_radix),
    ensures
        convert_spec(s, from_radix, to_radix) is Err <==> parse_spec(s, from_radix) is Err,
        convert_spec(s, from_radix, to_radix) matches Err(e) ==> e == RadixErrorView::UnableToParse(
            s,
            from_radix,
        ),
{
}

/// What `format` writes is canonical: lowercase digits only, at least one of
/// them, and a leading `0` only for the number zero, whose numeral is `0`
/// alone. So it carries no radix prefix.
pub proof fn lemma_format_canonical(n: u64, radix: u32)
    requires
        supported(radix),
    ensures
        format_spec(n, radix) matches Ok(text) && {
            &&& text.len() >= 1
            &&& forall|i: int|
                0 <= i < text.len() ==> ('0' <= #[trigger] text[i] <= '9' || 'a' <= text[i] <= 'z')
            &&& text[0] == '0' <==> n == 0
            &&& n == 0 ==> text == seq!['0']
            &&& prefix_len(text) == 0
        },
{
    lemma_numeral_canonical(n as nat, radix as nat);
}

/// The message of an error holds what failed as it was given, the string or
/// the number in decimal, and the radix in decimal.
pub proof fn lemma_message_names_what_failed(e: RadixErrorView)
    ensures
        e matches RadixErrorView::UnableToParse(s, radix) ==> occurs_in(s, e.message())
            && occurs_in(numeral(radix as nat, 10), e.message()),
        e matches RadixErrorView::UnableToFormat(n, radix) ==> occurs_in(
            numeral(n as nat, 10),
            e.message(),
        ) && occurs_in(numeral(radix as nat, 10), e.message()),
{
    let text = e.message();
    match e {
        RadixErrorView::UnableToParse(s, radix) => {
            let at = "unable to parse '"@.len() as int;
            let last = numeral(radix as nat, 10);
            assert(text.subrange(at, at + s.len()) =~= s);
            assert(text.subrange(text.len() - last.len(), text.len() as int) =~= last);
        },
        RadixErrorView::UnableToFormat(n, radix) => {
            let at = "unable to format "@.len() as int;
            let first = numeral(n as nat, 10);
            let last = numeral(radix as nat, 10);
            assert(text.subrange(at, at + first.len()) =~= first);
            assert(text.subrange(text.len() - last.len(), text.len() as int) =~= last);
        },
    }
}

/// A parse fails exactly where the string is empty, holds a character that
/// is no digit of the radix, or denotes more than `u64::MAX`; and a sign is
/// such a character in every radix.
pub proof fn lemma_parse_fails_exactly(s: Seq<char>, radix: u32)
    ensures
        parse_spec(s, radix) is Err <==> s.len() == 0 || !all_digits(s, radix as nat) || value_of(
            s,
            radix as nat,
        ) > u64::MAX,
        parse_spec(s, radix) matches Ok(n) ==> n == value_of(s, radix as nat),
        s.contains('+') || s.contains('-') ==> parse_spec(s, radix) is Err,
{
    if s.contains('+') {
        let i = choose|i: int| 0 <= i < s.len() && s[i] == '+';
        assert(!is_digit_in(s[i], radix as nat));
    }
    if s.contains('-') {
        let i = choose|i: int| 0 <= i < s.len() && s[i] == '-';
        assert(!is_digit_in(s[i], radix as nat));
    }
}

/// A parse fails only with the error that names the string and the radix
/// that it was asked to read.
pub proof fn lemma_parse_failure_names_input(s: Seq<char>, radix: u32)
    ensures
        parse_spec(s, radix) matches Err(e) ==> e == RadixErrorView::UnableToParse(s, radix)
            && occurs_in(s, e.message()) && occurs_in(numeral(radix as nat, 10), e.message()),
{
    lemma_message_names_what_failed(RadixErrorView::UnableToParse(s, radix));
}

/// Converting what was written in one supported radix to another gives what
/// writing the number in the other gives.
pub proof fn lemma_convert_formatted(n: u64, from_radix: u32, to_radix: u32)
    requires
        supported(from_radix),
    ensures
        convert_spec(format_spec(n, from_radix)->Ok_0, from_radix, to_radix) == format_spec(
            n,
            to_radix,
        ),
{
    lemma_format_parse_round_trip(n, from_radix);
}

} // verus!
