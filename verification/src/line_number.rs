//! Line numbers as the user writes them: a 1-based position in the time
//! sheet, or the literal word "last".

use crate::day_parser::is_prefix;
use crate::week_parser::parse_u8_spec;
use vstd::prelude::*;
use vstd::string::StringSliceAdditionalSpecFns;

verus! {

#[derive(Clone, Copy, Debug, PartialEq, Eq, Structural)]
pub enum LineNumber {
    /// A 1-based line number; never zero.
    Number(u8),
    /// The last line of the sheet, resolved against the line count when
    /// the deletion runs.
    Last,
}

#[derive(Clone, Copy, Debug, PartialEq, Eq, Structural)]
pub enum LineNumberError {
    /// Line numbers are 1-based, so zero is refused.
    Zero,
    /// Neither "last" nor a number of a line.
    Invalid,
}

pub open spec fn last_keyword() -> Seq<u8> {
    seq!['l' as u8, 'a' as u8, 's' as u8, 't' as u8]
}

pub open spec fn parse_line_number_spec(t: Seq<u8>) -> Result<LineNumber, LineNumberError> {
    if t == last_keyword() {
        Ok(LineNumber::Last)
    } else {
        match parse_u8_spec(t) {
            Some(0) => Err(LineNumberError::Zero),
            Some(v) => Ok(LineNumber::Number(v)),
            None => Err(LineNumberError::Invalid),
        }
    }
}

impl LineNumber {
    /// Parses "last" or a positive 1-based line number.
    pub fn parse(input: &str) -> (r: Result<LineNumber, LineNumberError>)
        ensures
            r == parse_line_number_spec(input.spec_bytes()),
            r matches Ok(LineNumber::Number(v)) ==> v >= 1,
    {
        let b = input.as_bytes();
        let n = b.len();
        proof {
            assert(b@.subrange(0, n as int) =~= b@);
            reveal_strlit("last");
            broadcast use vstd::utf8::is_ascii_chars_encode_utf8;

            assert(vstd::utf8::is_ascii_chars(("last")@));
            assert(("last").spec_bytes() =~= last_keyword());
        }
        if n == 4 && crate::day_parser::is_prefix_of_name(b, 0, n, "last") {
            proof {
                assert(b@ =~= last_keyword());
            }
            return Ok(LineNumber::Last);
        }
        proof {
            if b@ == last_keyword() {
                assert(is_prefix(b@.subrange(0, n as int), ("last").spec_bytes()));
            }
        }
        match crate::week_parser::parse_u8_range(b, 0, n) {
            Some(v) => {
                if v == 0 {
                    Err(LineNumberError::Zero)
                } else {
                    Ok(LineNumber::Number(v))
                }
            },
            None => Err(LineNumberError::Invalid),
        }
    }
}

} // verus!
