use vstd::prelude::*;

verus! {

/// Errors of this library.
#[derive(Debug, Clone, PartialEq, Eq)]
pub enum Error {
    InvalidTimeComponents,
    /// Ambiguous or nonexistent local datetime.
    InvalidLocalDateTime(String),
    DurationParse(String),
    FrequencyParse(String),
    OutOfRange(String),
    /// A date or time string did not match its format.
    ChronoParse(String),
    /// An unknown time zone name.
    TimeZoneParse(String),
    DecimalParse(String),
    IntParse(String),
    /// An unknown frequency unit.
    StrumParse(String),
    Custom(String),
}

pub type Result<T, E = Error> = std::result::Result<T, E>;

impl Error {
    /// A custom error carrying the given message.
    pub fn custom(msg: String) -> (r: Self)
        ensures
            r == Error::Custom(msg),
    {
        Error::Custom(msg)
    }
}

} // verus!
