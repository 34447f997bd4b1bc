//! What the record of a finished child process says about the signal that
//! ended it.

use vstd::prelude::*;
use crate::text::{push_signed_decimal, signed_decimal_text, string_from_chars};

verus! {

/// The `Debug` text of the optional signal number: `Some(<n>)` or `None`.
pub open spec fn signal_text(signal: Option<i32>) -> Seq<char> {
    match signal {
        Some(n) => "Some("@ + signed_decimal_text(n as int) + ")"@,
        None => "None"@,
    }
}

/// The text recorded for the signal that ended the child, if one did.
pub fn signal_description(signal: Option<i32>) -> (text: String)
    ensures
        text@ == signal_text(signal),
{
    match signal {
        Some(n) => {
            let mut digits: Vec<char> = Vec::new();
            push_signed_decimal(n as i64, &mut digits);
            assert(digits@ =~= signed_decimal_text(n as int));
            let number = string_from_chars(digits.as_slice());
            let mut text = String::from_str("Some(");
            text.append(number.as_str());
            text.append(")");
            text
        },
        None => String::from_str("None"),
    }
}

} // verus!
