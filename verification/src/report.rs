//! One invocation from flags to output: the lines to print, or the error
//! that ends it.

use crate::numeral::numeral;
use crate::options::{ArgumentError, Opt};
use crate::radix::{
    as_text, detect, parse, parse_spec, prefix_radix, radix_name, split_prefix, strip_prefix,
    supported, RadixError, RadixErrorView,
};
use vstd::prelude::*;

verus! {

/// The width that a radix's label is padded to.
pub const LABEL_WIDTH: usize = 10;

/// Why an invocation ended without output.
#[derive(Debug, PartialEq)]
pub enum RunError {
    /// The flags contradict each other.
    Argument(ArgumentError),
    /// The number is no numeral of its radix.
    Radix(RadixError),
}

/// What a `RunError` holds, with strings as their characters.
pub enum RunErrorView {
    Argument(ArgumentError),
    Radix(RadixErrorView),
}

impl View for RunError {
    type V = RunErrorView;

    open spec fn view(&self) -> RunErrorView {
        match self {
            RunError::Argument(e) => RunErrorView::Argument(*e),
            RunError::Radix(e) => RunErrorView::Radix(e@),
        }
    }
}

impl RunErrorView {
    /// The line that reports the error.
    pub open spec fn message(self) -> Seq<char> {
        match self {
            RunErrorView::Argument(e) => e.message_spec(),
            RunErrorView::Radix(e) => e.message(),
        }
    }
}

impl RunError {
    /// The line that reports the error.
    pub fn message(&self) -> (text: String)
        ensures
            text@ == self@.message(),
    {
        match self {
            RunError::Argument(e) => e.message(),
            RunError::Radix(e) => e.message(),
        }
    }
}

/// `s`, with spaces behind it where it is shorter than `width`.
pub open spec fn padded(s: Seq<char>, width: nat) -> Seq<char> {
    if s.len() >= width {
        s
    } else {
        s + Seq::new((width - s.len()) as nat, |i: int| ' ')
    }
}

/// The line that shows a numeral in a radix: the radix's name and a colon,
/// left-justified in `LABEL_WIDTH` characters, then a space and the numeral.
pub open spec fn line(radix: u32, converted: Seq<char>) -> Seq<char> {
    padded(radix_name(radix) + seq![':'], LABEL_WIDTH as nat) + seq![' '] + converted
}

/// The radix of the input: the one that a flag names, and else the one that
/// the prefix announces.
pub open spec fn resolved_radix(flagged: Option<u32>, prefix: Seq<char>) -> u32 {
    match flagged {
        Some(radix) => radix,
        None => prefix_radix(prefix).unwrap(),
    }
}

/// What an invocation gives. Contradicting input flags end it. Else the
/// prefix is taken off the number, the rest is parsed in the radix that the
/// flags name or the prefix announces, and a parse error ends it. Else there
/// is one line for each output radix, in their order.
pub open spec fn run_spec(opt: &Opt) -> Result<Seq<Seq<char>>, RunErrorView> {
    match opt.input_radix() {
        Err(e) => Err(RunErrorView::Argument(e)),
        Ok(flagged) => {
            let (prefix, digits) = split_prefix(opt.number@);
            match parse_spec(digits, resolved_radix(flagged, prefix)) {
                Err(e) => Err(RunErrorView::Radix(e)),
                Ok(n) => Ok(
                    opt.output_radices().map_values(
                        |radix: u32| line(radix, numeral(n as nat, radix as nat)),
                    ),
                ),
            }
        },
    }
}

/// The view of an invocation's outcome: the characters of each line, or the
/// view of the error.
pub open spec fn run_view(r: Result<Vec<String>, RunError>) -> Result<
    Seq<Seq<char>>,
    RunErrorView,
> {
    match r {
        Ok(lines) => Ok(lines@.map_values(|text: String| text@)),
        Err(e) => Err(e@),
    }
}

/// The line that shows `converted` as the numeral in `radix`.
pub fn output_line(radix: u32, converted: &str) -> (text: String)
    ensures
        text@ == line(radix, converted@),
{
    let mut text = as_text(radix);
    text.append(":");
    proof {
        reveal_strlit(":");
        reveal_strlit(" ");
    }
    let ghost label = text@;
    let mut width: usize = text.as_str().unicode_len();
    while width < LABEL_WIDTH
        invariant
            width == text@.len(),
            label.len() <= width,
            width > label.len() ==> width <= LABEL_WIDTH,
            text@ == label + Seq::new((width - label.len()) as nat, |i: int| ' '),
            " "@ == seq![' '],
        decreases LABEL_WIDTH - width,
    {
        text.append(" ");
        width = width + 1;
    }
    text.append(" ");
    text.append(converted);
    text
}

/// Runs one invocation: resolves the flags, parses the number once, and
/// writes it in each output radix.
///
/// # Errors
///
/// Returns `Argument` if more than one input flag is set, and else `Radix`
/// if the number, without its prefix, is no numeral of the input radix.
pub fn run(opt: &Opt) -> (r: Result<Vec<String>, RunError>)
    ensures
        run_view(r) == run_spec(opt),
{
    let flagged = match opt.get_input_radix() {
        Ok(flagged) => flagged,
        Err(e) => {
            return Err(RunError::Argument(e));
        },
    };
    let radices = opt.get_output_radices();
    let (prefix, digits) = strip_prefix(opt.number.as_str());
    let from_radix: u32 = match flagged {
        Some(radix) => radix,
        None => detect(prefix).unwrap(),
    };
    let n: u64 = match parse(digits, from_radix) {
        Ok(n) => n,
        Err(e) => {
            return Err(RunError::Radix(e));
        },
    };
    proof {
        opt.lemma_output_radices();
    }
    let mut lines: Vec<String> = Vec::new();
    let mut i: usize = 0;
    while i < radices.len()
        invariant
            i <= radices.len(),
            radices@ == opt.output_radices(),
            forall|k: int| 0 <= k < radices.len() ==> supported(#[trigger] radices[k]),
            lines.len() == i,
            forall|k: int|
                0 <= k < i ==> (#[trigger] lines[k])@ == line(
                    radices[k],
                    numeral(n as nat, radices[k] as nat),
                ),
        decreases radices.len() - i,
    {
        let radix: u32 = radices[i];
        let converted = match crate::radix::format(n, radix) {
            Ok(converted) => converted,
            Err(e) => {
                return Err(RunError::Radix(e));
            },
        };
        lines.push(output_line(radix, converted.as_str()));
        i = i + 1;
    }
    assert(lines@.map_values(|text: String| text@) =~= opt.output_radices().map_values(
        |radix: u32| line(radix, numeral(n as nat, radix as nat)),
    ));
    Ok(lines)
}

/// An invocation that succeeds writes one line for each output radix, so
/// between one and four; and it fails exactly where the flags contradict
/// each other or the number does not parse.
pub proof fn lemma_run_outcome(opt: &Opt)
    ensures
        run_spec(opt) matches Ok(lines) ==> lines.len() == opt.output_radices().len() && 1
            <= lines.len() <= 4,
        run_spec(opt) is Err <==> opt.input_flags() >= 2 || (opt.input_radix() matches Ok(flagged)
            && parse_spec(
            split_prefix(opt.number@).1,
            resolved_radix(flagged, split_prefix(opt.number@).0),
        ) is Err),
{
    opt.lemma_input_radix();
    opt.lemma_output_radices();
}

} // verus!
