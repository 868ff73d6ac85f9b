//! What can go wrong when a frame is read.

use vstd::prelude::*;

verus! {

/// The kinds of failure, without what the failing reader reported.
#[derive(Clone, Copy, Debug, PartialEq, Eq, Structural)]
pub enum Fault {
    /// A field that holds a whole number could not be read as one.
    Number,
    /// A field that holds a time could not be read as one.
    Timestamp,
    /// The frame is not well-formed UTF-8.
    Utf8,
    /// A field that holds a price could not be read as one.
    Float,
    /// The frame has fewer fields than a frame of its kind has.
    Incomplete,
}

/// `ParsingError` is an error returned from anything having to do with parsing
/// data.
#[derive(Debug)]
pub enum ParsingError {
    Number(lexical::ErrorCode),
    Timestamp(time::error::Parse),
    UTf8(core::str::Utf8Error),
    Float,
    Incomplete,
}

impl ParsingError {
    /// Which kind of failure this is.
    pub open spec fn fault(self) -> Fault {
        match self {
            ParsingError::Number(_) => Fault::Number,
            ParsingError::Timestamp(_) => Fault::Timestamp,
            ParsingError::UTf8(_) => Fault::Utf8,
            ParsingError::Float => Fault::Float,
            ParsingError::Incomplete => Fault::Incomplete,
        }
    }

    /// Which kind of failure this is.
    pub fn kind(&self) -> (kind: Fault)
        ensures
            kind == self.fault(),
    {
        match self {
            ParsingError::Number(_) => Fault::Number,
            ParsingError::Timestamp(_) => Fault::Timestamp,
            ParsingError::UTf8(_) => Fault::Utf8,
            ParsingError::Float => Fault::Float,
            ParsingError::Incomplete => Fault::Incomplete,
        }
    }

    /// The text that describes the failure to a reader.
    pub fn message(&self) -> (text: &'static str)
        ensures
            text@ == match self.fault() {
                Fault::Number => "error parsing number"@,
                Fault::Timestamp => "error parsing time"@,
                Fault::Utf8 => "error converting to utf"@,
                Fault::Float => "error parsing float"@,
                Fault::Incomplete => "error parsing fields"@,
            },
    {
        match self {
            ParsingError::Number(_) => "error parsing number",
            ParsingError::Timestamp(_) => "error parsing time",
            ParsingError::UTf8(_) => "error converting to utf",
            ParsingError::Float => "error parsing float",
            ParsingError::Incomplete => "error parsing fields",
        }
    }
}

} // verus!
