//! Numbers on the command line.
use vstd::prelude::*;
use vstd::string::StringExecFns;

use crate::number;
use crate::number::read_decimal;
use crate::text::chars_of;

verus! {

/// A number above zero, or what is wrong with it.
pub open spec fn positive(name: Seq<char>, value: Seq<char>) -> Result<u64, Seq<char>> {
    match number::parse_decimal(value, u64::MAX as nat) {
        None => Err(name + " must be a positive integer"@),
        Some(n) => if n == 0 {
            Err(name + " must be greater than zero"@)
        } else {
            Ok(n as u64)
        },
    }
}

/// Reads a number above zero.
pub fn parse_positive_u64(name: &str, value: &str) -> (r: Result<u64, String>)
    ensures
        match r {
            Ok(n) => positive(name@, value@) == Ok::<u64, Seq<char>>(n),
            Err(message) => positive(name@, value@) == Err::<u64, Seq<char>>(message@),
        },
{
    let v = chars_of(value);
    match read_decimal(v.as_slice(), u64::MAX) {
        None => {
            let mut message = name.to_owned();
            message.append(" must be a positive integer");
            Err(message)
        },
        Some(n) => {
            if n == 0 {
                let mut message = name.to_owned();
                message.append(" must be greater than zero");
                return Err(message);
            }
            Ok(n)
        },
    }
}

/// The message on a switch that lacks its value.
pub open spec fn lacks_value(name: Seq<char>) -> Seq<char> {
    name + " requires a value"@
}

/// Reads the value of a switch, which follows it.
pub fn switch_value(name: &str, value: Option<&String>) -> (r: Result<u64, String>)
    ensures
        match value {
            None => r matches Err(message) && message@ == lacks_value(name@),
            Some(v) => match r {
                Ok(n) => positive(name@, v@) == Ok::<u64, Seq<char>>(n),
                Err(message) => positive(name@, v@) == Err::<u64, Seq<char>>(message@),
            },
        },
{
    match value {
        None => {
            let mut message = name.to_owned();
            message.append(" requires a value");
            Err(message)
        },
        Some(v) => parse_positive_u64(name, v.as_str()),
    }
}

/// The message on an argument that is not known.
pub open spec fn unknown_argument(arg: Seq<char>, usage: Seq<char>) -> Seq<char> {
    "unknown argument: "@ + arg + "\n\n"@ + usage
}

pub fn unknown_argument_message(arg: &str, usage: &str) -> (s: String)
    ensures
        s@ == unknown_argument(arg@, usage@),
{
    let mut s = "unknown argument: ".to_owned();
    s.append(arg);
    s.append("\n\n");
    s.append(usage);
    s
}

/// A number above zero is taken as it is; zero, and what is no number, are refused,
/// each with its own message that names the switch.
pub proof fn positive_numbers_are_taken(name: Seq<char>, value: Seq<char>, n: nat)
    ensures
        1 <= n <= u64::MAX ==> positive(name, number::decimal(n)) == Ok::<u64, Seq<char>>(n as u64),
        positive(name, number::decimal(0)) == Err::<u64, Seq<char>>(name + " must be greater than zero"@),
        number::parse_decimal(value, u64::MAX as nat) is None ==> positive(name, value) == Err::<u64, Seq<char>>(
            name + " must be a positive integer"@,
        ),
        positive(name, value) matches Ok(m) ==> m >= 1 && number::parse_decimal(value, u64::MAX as nat) == Some(
            m as nat,
        ),
        lacks_value(name) == name + " requires a value"@,
{
    if n <= u64::MAX {
        number::decimal_reads_back(n, u64::MAX as nat);
    }
    number::decimal_reads_back(0, u64::MAX as nat);
}

} // verus!
