//! The calls this library makes into other crates and into parts of the
//! standard library that carry no specification.
//!
//! Nothing in this file is proved. Each item states in its contract what the
//! called function is taken to do; the rest of the library is verified against
//! these statements.

use vstd::prelude::*;
use vstd::string::StringSliceAdditionalSpecFns;
use memmem::Searcher;

verus! {

/// `memmem::TwoWaySearcher`, a searcher for one byte string.
#[verifier::external_type_specification]
#[verifier::external_body]
pub struct ExTwoWaySearcher<'a>(memmem::TwoWaySearcher<'a>);

/// The byte string that a searcher looks for.
pub uninterp spec fn searcher_needle(searcher: memmem::TwoWaySearcher<'static>) -> Seq<u8>;

/// Whether `needle` stands in `haystack` from position `at` on.
pub open spec fn occurs_at(haystack: Seq<u8>, needle: Seq<u8>, at: int) -> bool {
    &&& 0 <= at
    &&& at + needle.len() <= haystack.len()
    &&& haystack.subrange(at, at + needle.len()) == needle
}

/// `memmem::TwoWaySearcher::new`: builds a searcher for `needle`. The contract
/// claims only that the searcher looks for the bytes it was given.
#[verifier::external_body]
pub(crate) fn new_searcher(needle: &'static [u8]) -> (searcher: memmem::TwoWaySearcher<'static>)
    ensures
        searcher_needle(searcher) == needle@,
{
    memmem::TwoWaySearcher::new(needle)
}

/// Whether `at` is the first position from which `needle` stands in
/// `haystack`.
pub open spec fn first_occurs_at(haystack: Seq<u8>, needle: Seq<u8>, at: int) -> bool {
    &&& occurs_at(haystack, needle, at)
    &&& forall|earlier: int| 0 <= earlier < at ==> !occurs_at(haystack, needle, earlier)
}

/// Whether `needle` stands nowhere in `haystack`.
pub open spec fn occurs_nowhere(haystack: Seq<u8>, needle: Seq<u8>) -> bool {
    forall|at: int| !occurs_at(haystack, needle, at)
}

/// `memmem::Searcher::search_in` on a `TwoWaySearcher`: the start of the first
/// place in `haystack` where the needle stands, `None` where it stands nowhere.
#[verifier::external_body]
pub(crate) fn search_in(
    searcher: &memmem::TwoWaySearcher<'static>,
    haystack: &[u8],
) -> (found: Option<usize>)
    ensures
        match found {
            Some(at) => first_occurs_at(haystack@, searcher_needle(*searcher), at as int),
            None => occurs_nowhere(haystack@, searcher_needle(*searcher)),
        },
{
    searcher.search_in(haystack)
}

/// `core::str::Utf8Error`, what `from_utf8` reports.
#[verifier::external_type_specification]
#[verifier::external_body]
pub struct ExUtf8Error(core::str::Utf8Error);

/// `core::str::from_utf8`: the bytes as a text where they are well-formed
/// UTF-8, an error where they are not.
#[verifier::external_body]
pub(crate) fn from_utf8<'a>(bytes: &'a [u8]) -> (decoded: Result<&'a str, core::str::Utf8Error>)
    ensures
        match decoded {
            Ok(text) => vstd::utf8::valid_utf8(bytes@) && text.spec_bytes() == bytes@,
            Err(_) => !vstd::utf8::valid_utf8(bytes@),
        },
{
    core::str::from_utf8(bytes)
}

/// `lexical::ErrorCode`, the reason why a text is no number.
#[verifier::external_type_specification]
#[verifier::external_body]
pub struct ExErrorCode(lexical::ErrorCode);

/// What `lexical` makes of a text that is to be read as a 32-bit signed
/// integer in decimal: the number, or the code of the error that it reports.
pub uninterp spec fn lexical_i32(text: Seq<char>) -> Result<i32, lexical::ErrorCode>;

/// `lexical::parse::<i32, _>`: the whole text read as a decimal integer. Of an
/// error only the code is handed on, not the place in the text.
#[verifier::external_body]
pub(crate) fn parse_i32(text: &str) -> (parsed: Result<i32, lexical::ErrorCode>)
    ensures
        parsed == lexical_i32(text@),
{
    lexical::parse::<i32, _>(text).map_err(|error| error.code)
}

/// `time::format_description::OwnedFormatItem`, a compiled time format.
#[verifier::external_type_specification]
#[verifier::external_body]
pub struct ExOwnedFormatItem(time::format_description::OwnedFormatItem);

/// `time::error::InvalidFormatDescription`, why a format does not compile.
#[verifier::external_type_specification]
#[verifier::external_body]
pub struct ExInvalidFormatDescription(time::error::InvalidFormatDescription);

/// `time::error::Parse`, why a text does not fit a time format.
#[verifier::external_type_specification]
#[verifier::external_body]
pub struct ExParse(time::error::Parse);

/// What `time` makes of a format description: its compiled form, or the
/// error that it reports.
pub uninterp spec fn compiled_format(description: Seq<char>) -> Result<
    time::format_description::OwnedFormatItem,
    time::error::InvalidFormatDescription,
>;

/// `time::format_description::parse_owned::<1>`: compiles a format
/// description. What comes of it hangs on the description alone.
#[verifier::external_body]
pub(crate) fn compile_format(
    description: &str,
) -> (compiled: Result<
    time::format_description::OwnedFormatItem,
    time::error::InvalidFormatDescription,
>)
    ensures
        compiled == compiled_format(description@),
{
    time::format_description::parse_owned::<1>(description)
}

/// What `time` makes of `text` under a compiled format when it is to read a
/// time of day: its hour, minute, second and nanosecond, or the error that it
/// reports.
pub uninterp spec fn clock_reading(
    format: time::format_description::OwnedFormatItem,
    text: Seq<char>,
) -> Result<(u8, u8, u8, u32), time::error::Parse>;

/// `time::Time::parse`, with the time of day handed out by
/// `Time::as_hms_nano`. A time of day has an hour below 24, a minute and a
/// second below 60 and less than a second of nanoseconds.
#[verifier::external_body]
pub(crate) fn read_clock(
    text: &str,
    format: &time::format_description::OwnedFormatItem,
) -> (read: Result<(u8, u8, u8, u32), time::error::Parse>)
    ensures
        read == clock_reading(*format, text@),
        read matches Ok(clock) ==> {
            &&& clock.0 < 24
            &&& clock.1 < 60
            &&& clock.2 < 60
            &&& clock.3 < 1_000_000_000
        },
{
    time::Time::parse(text, format).map(|clock| clock.as_hms_nano())
}

/// What `time` makes of `text` under a compiled format when it is to read a
/// date with a time: the reading as it stands on the calendar and the clock,
/// or the error that it reports. The reading is given as the whole seconds
/// from 1970-01-01 00:00:00 on the same calendar and clock, and the
/// nanoseconds past them. No time zone enters it.
pub uninterp spec fn stamp_reading(
    format: time::format_description::OwnedFormatItem,
    text: Seq<char>,
) -> Result<(i64, u32), time::error::Parse>;

/// `time::PrimitiveDateTime::parse`, with the date and time handed out as
/// seconds and nanoseconds: `assume_utc().unix_timestamp()` counts the
/// seconds of a date and time from 1970-01-01 00:00:00 without moving it, and
/// `nanosecond()` gives what is past the second.
#[verifier::external_body]
pub(crate) fn read_stamp(
    text: &str,
    format: &time::format_description::OwnedFormatItem,
) -> (read: Result<(i64, u32), time::error::Parse>)
    ensures
        read == stamp_reading(*format, text@),
{
    time::PrimitiveDateTime::parse(text, format)
        .map(|stamp| (stamp.assume_utc().unix_timestamp(), stamp.nanosecond()))
}

/// `time::OffsetDateTime::now_utc`, handed out as its `unix_timestamp`: the
/// seconds from the Unix epoch to now. Nothing is claimed of the value.
#[verifier::external_body]
pub(crate) fn utc_now() -> i64 {
    time::OffsetDateTime::now_utc().unix_timestamp()
}

/// The upper-case form that the standard library gives a text.
pub uninterp spec fn uppercase(text: Seq<char>) -> Seq<char>;

/// `str::to_uppercase`: the text with each character replaced by its
/// upper-case form.
#[verifier::external_body]
pub(crate) fn to_uppercase(text: &str) -> (upper: String)
    ensures
        upper@ == uppercase(text@),
{
    text.to_uppercase()
}

} // verus!
