//! The conversion flags of one invocation, and what they ask for: the radix
//! of the input and the radices to write it in.
//!
//! Policy: with no output flag set, the number is written in all four
//! radices. The radix of the input is named by at most one input flag; with
//! none set it is read off the number's prefix.

use vstd::prelude::*;

verus! {

/// Error type for flags that contradict each other.
#[derive(Debug, PartialEq)]
pub enum ArgumentError {
    /// More than one of the input radix flags is set.
    MultipleInputRadixFlags,
}

impl ArgumentError {
    /// The line that reports the error.
    pub open spec fn message_spec(self) -> Seq<char> {
        "multiple input radices defined"@
    }

    /// The line that reports the error.
    pub fn message(&self) -> (text: String)
        ensures
            text@ == self.message_spec(),
    {
        String::from_str("multiple input radices defined")
    }
}

/// The flags and the number of one invocation.
#[derive(Debug)]
pub struct Opt {
    /// Convert number to hexadecimal
    pub display_hex: bool,
    /// Convert number from hexadecimal
    pub from_hex: bool,
    /// Convert number to decimal
    pub display_dec: bool,
    /// Convert number from decimal
    pub from_dec: bool,
    /// Convert number to octal
    pub display_oct: bool,
    /// Convert number from octal
    pub from_oct: bool,
    /// Convert number to binary
    pub display_bin: bool,
    /// Convert number from binary
    pub from_bin: bool,
    /// Number to convert
    pub number: String,
}

/// The one-element sequence of `radix` where `flag` is set, and else the
/// empty one.
pub open spec fn chosen(flag: bool, radix: u32) -> Seq<u32> {
    if flag {
        seq![radix]
    } else {
        Seq::empty()
    }
}

/// One for a flag that is set, zero for one that is not.
pub open spec fn count(flag: bool) -> nat {
    if flag {
        1
    } else {
        0
    }
}

impl Opt {
    /// Whether an output flag is set.
    pub open spec fn any_output_flag(&self) -> bool {
        self.display_bin || self.display_oct || self.display_dec || self.display_hex
    }

    /// The radices to write the number in: those whose output flag is set,
    /// in the order binary, octal, decimal, hexadecimal, whatever the order
    /// of the flags was; and all four where no output flag is set.
    pub open spec fn output_radices(&self) -> Seq<u32> {
        if !self.any_output_flag() {
            seq![2u32, 8u32, 10u32, 16u32]
        } else {
            chosen(self.display_bin, 2) + chosen(self.display_oct, 8) + chosen(
                self.display_dec,
                10,
            ) + chosen(self.display_hex, 16)
        }
    }

    /// How many of the input radix flags are set.
    pub open spec fn input_flags(&self) -> nat {
        count(self.from_bin) + count(self.from_oct) + count(self.from_dec) + count(self.from_hex)
    }

    /// The radix that the input flags name: none where no flag is set, the
    /// flag's radix where one is, and an error where several are.
    pub open spec fn input_radix(&self) -> Result<Option<u32>, ArgumentError> {
        if self.input_flags() > 1 {
            Err(ArgumentError::MultipleInputRadixFlags)
        } else if self.from_bin {
            Ok(Some(2u32))
        } else if self.from_oct {
            Ok(Some(8u32))
        } else if self.from_dec {
            Ok(Some(10u32))
        } else if self.from_hex {
            Ok(Some(16u32))
        } else {
            Ok(None)
        }
    }

    /// Returns the output radices to convert to.
    pub fn get_output_radices(&self) -> (radices: Vec<u32>)
        ensures
            radices@ == self.output_radices(),
    {
        let mut radices: Vec<u32> = Vec::new();
        if !self.display_bin && !self.display_oct && !self.display_dec && !self.display_hex {
            radices.push(2);
            radices.push(8);
            radices.push(10);
            radices.push(16);
            return radices;
        }
        if self.display_bin {
            radices.push(2);
        }
        if self.display_oct {
            radices.push(8);
        }
        if self.display_dec {
            radices.push(10);
        }
        if self.display_hex {
            radices.push(16);
        }
        radices
    }

    /// Returns the radix of the input number, if a flag names it.
    ///
    /// # Errors
    ///
    /// Returns `MultipleInputRadixFlags` if more than one input flag is set.
    pub fn get_input_radix(&self) -> (radix: Result<Option<u32>, ArgumentError>)
        ensures
            radix == self.input_radix(),
    {
        let mut found: Option<u32> = None;
        if self.from_bin {
            found = Some(2);
        }
        if self.from_oct {
            if found.is_some() {
                return Err(ArgumentError::MultipleInputRadixFlags);
            }
            found = Some(8);
        }
        if self.from_dec {
            if found.is_some() {
                return Err(ArgumentError::MultipleInputRadixFlags);
            }
            found = Some(10);
        }
        if self.from_hex {
            if found.is_some() {
                return Err(ArgumentError::MultipleInputRadixFlags);
            }
            found = Some(16);
        }
        Ok(found)
    }

    /// The output radices are never empty, hold only radices that numbers
    /// can be written in, and rise strictly, so that none occurs twice. A
    /// radix is among them exactly where its output flag is set, or no output
    /// flag is.
    pub proof fn lemma_output_radices(&self)
        ensures
            1 <= self.output_radices().len() <= 4,
            forall|i: int|
                0 <= i < self.output_radices().len() ==> crate::radix::supported(
                    #[trigger] self.output_radices()[i],
                ),
            forall|i: int, j: int|
                0 <= i < j < self.output_radices().len() ==> self.output_radices()[i]
                    < self.output_radices()[j],
            self.output_radices().contains(2) <==> self.display_bin || !self.any_output_flag(),
            self.output_radices().contains(8) <==> self.display_oct || !self.any_output_flag(),
            self.output_radices().contains(10) <==> self.display_dec || !self.any_output_flag(),
            self.output_radices().contains(16) <==> self.display_hex || !self.any_output_flag(),
    {
        let radices = self.output_radices();
        let bin = chosen(self.display_bin, 2);
        let oct = chosen(self.display_oct, 8);
        let dec = chosen(self.display_dec, 10);
        if self.display_bin {
            assert(radices[0] == 2);
        }
        if self.display_oct {
            assert(radices[bin.len() as int] == 8);
        }
        if self.display_dec {
            assert(radices[(bin.len() + oct.len()) as int] == 10);
        }
        if self.display_hex {
            assert(radices[(bin.len() + oct.len() + dec.len()) as int] == 16);
        }
    }

    /// A radix that an input flag names is one that numbers can be written
    /// in, and the flags name one exactly where a single flag is set.
    pub proof fn lemma_input_radix(&self)
        ensures
            self.input_radix() is Err <==> self.input_flags() >= 2,
            self.input_radix() == Ok::<Option<u32>, ArgumentError>(None) <==> self.input_flags()
                == 0,
            self.input_radix() matches Ok(Some(radix)) ==> crate::radix::supported(radix)
                && self.input_flags() == 1,
    {
    }
}

} // verus!
