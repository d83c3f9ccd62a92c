use vstd::prelude::*;
use vstd::string::*;

verus! {

/// The failures that decoding can report.
#[derive(Debug)]
pub enum Error {
    /// An image magic number that is not recognised.
    BadMagic(u32),
    /// Fewer bytes remain than a fixed-width read requires.
    BadBufferLength,
    /// Any other lower-level failure, carried as its message.
    Other(String),
}

pub type Result<T> = std::result::Result<T, Error>;

/// Decimal digits of `n`, most significant first; `0` is written as one digit.
pub open spec fn decimal(n: nat) -> Seq<char>
    decreases n,
{
    if n < 10 {
        seq![digit_char(n)]
    } else {
        decimal(n / 10).push(digit_char(n % 10))
    }
}

pub open spec fn digit_char(d: nat) -> char {
    (('0' as nat) + d) as char
}

/// Relies on `u32::to_string` (its `Display` impl): the decimal digits of the value.
#[verifier::external_body]
fn decimal_string(v: u32) -> (r: String)
    ensures
        r@ == decimal(v as nat),
{
    v.to_string()
}

impl Error {
    /// Human-readable text for the error.
    pub fn description(&self) -> (r: String)
        ensures
            r@ == match self {
                Error::BadMagic(v) => "Unknown magic: "@ + decimal(*v as nat),
                Error::BadBufferLength => "Invalid buffer length"@,
                Error::Other(msg) => "Internal error: "@ + msg@,
            },
    {
        match self {
            Error::BadMagic(v) => {
                let digits = decimal_string(*v);
                String::from_str("Unknown magic: ").concat(digits.as_str())
            },
            Error::BadBufferLength => String::from_str("Invalid buffer length"),
            Error::Other(msg) => String::from_str("Internal error: ").concat(msg.as_str()),
        }
    }
}

} // verus!
