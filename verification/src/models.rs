//! The messages of the feed and how one frame is read into one.
//!
//! A frame is text: fields with commas between them. Its first field says what
//! the frame is, and the fields after it stand at fixed places. A frame that
//! is too short to have all the places of its kind is faulty.
//!
//! Prices are binary floats, which this library does not touch. The caller
//! reads the price fields and hands in what it read, in whatever type it
//! likes; the library decides where such a reading is due and what follows
//! where it is missing.

use vstd::prelude::*;
use vstd::string::{StringExecFns, StringSliceAdditionalSpecFns};
use vstd::utf8::{
    decode_utf8, encode_utf8, encode_utf8_decode_utf8, encode_utf8_valid_utf8, is_ascii_chars,
    is_ascii_chars_encode_utf8, is_char_boundary, is_char_boundary_iff_not_is_continuation_byte,
    valid_utf8,
};
use crate::client::{frames_of, law_frames_stand_alone, DELIMITER};
use crate::errors::{Fault, ParsingError};
use crate::outside::{
    clock_reading, compile_format, compiled_format, from_utf8, lexical_i32, parse_i32, read_clock,
    read_stamp, stamp_reading, utc_now,
};
use crate::split::{find_byte, lemma_first_index, split_on};

verus! {

/// The byte between two fields of a frame: a comma.
pub const SEPARATOR: u8 = 44;

/// The first field of a trade frame.
pub const TRADE_TAG: u8 = 81;

/// The first field of a frame that tells the feed's time.
pub const TIMESTAMP_TAG: u8 = 84;

/// The first field of a frame that carries a notice of the server.
pub const SERVER_TAG: u8 = 79;

/// How a trade frame writes the time of day of a trade.
pub const CLOCK_FORMAT: &'static str = "[hour]:[minute]:[second].[subsecond digits:6]";

/// How a frame that tells the feed's time writes date and time.
pub const STAMP_FORMAT: &'static str = "[year][month][day] [hour]:[minute]:[second]";

/// The feed's offset from UTC while daylight saving is in effect, in seconds:
/// four hours behind.
pub const DAYLIGHT_OFFSET: i32 = -14_400;

/// The feed's offset from UTC while daylight saving is not in effect, in
/// seconds: five hours behind.
pub const STANDARD_OFFSET: i32 = -18_000;

/// The number of fields of a trade frame.
pub const TRADE_FIELDS: usize = 17;

/// The number of fields that a frame that tells the feed's time has at least.
pub const TIMESTAMP_FIELDS: usize = 2;

/// The seconds of one day. A day of Unix time has no leap second.
pub const SECONDS_PER_DAY: i64 = 86_400;

/// The nanoseconds of one second.
pub const NANOS_PER_SECOND: i128 = 1_000_000_000;

/// The text of each field.
pub open spec fn texts_of(msg: Seq<&str>) -> Seq<Seq<char>> {
    Seq::new(msg.len(), |i: int| msg[i]@)
}

/// The bytes of each field.
pub open spec fn bytes_of(msg: Seq<&str>) -> Seq<Seq<u8>> {
    Seq::new(msg.len(), |i: int| msg[i].spec_bytes())
}

/// The fields of a frame of well-formed UTF-8: the texts between its commas.
pub open spec fn frame_texts(src: Seq<u8>) -> Seq<Seq<char>> {
    let pieces = split_on(src, SEPARATOR);
    Seq::new(pieces.len(), |i: int| decode_utf8(pieces[i]))
}

/// The field at place `at`, empty where the frame has no such place.
pub open spec fn field(msg: Seq<Seq<char>>, at: int) -> Seq<char> {
    if 0 <= at < msg.len() {
        msg[at]
    } else {
        Seq::empty()
    }
}

/// The text of one character that `byte` stands for in ASCII.
pub open spec fn tag_text(byte: u8) -> Seq<char> {
    seq![byte as char]
}

/// A text is the one ASCII character `byte` exactly if its bytes are that one
/// byte.
proof fn lemma_tag_bytes(text: Seq<char>, byte: u8)
    requires
        byte < 128,
    ensures
        text == tag_text(byte) <==> encode_utf8(text) == seq![byte],
{
    let tag = tag_text(byte);
    is_ascii_chars_encode_utf8(tag);
    if encode_utf8(text) == seq![byte] {
        encode_utf8_decode_utf8(text);
        encode_utf8_decode_utf8(tag);
    }
}

/// Cuts a frame into its fields: the texts between its commas, the empty ones
/// too. A frame that is not well-formed UTF-8 has no fields.
pub fn fields<'a>(src: &'a [u8]) -> (cut: Result<Vec<&'a str>, ParsingError>)
    ensures
        match cut {
            Ok(msg) => {
                &&& valid_utf8(src@)
                &&& bytes_of(msg@) == split_on(src@, SEPARATOR)
                &&& texts_of(msg@) == frame_texts(src@)
            },
            Err(error) => !valid_utf8(src@) && error.fault() == Fault::Utf8,
        },
{
    let text = match from_utf8(src) {
        Ok(text) => text,
        Err(error) => {
            return Err(ParsingError::UTf8(error));
        },
    };
    let mut msg: Vec<&'a str> = Vec::new();
    let mut rest: &'a str = text;
    loop
        invariant
            valid_utf8(src@),
            bytes_of(msg@) + split_on(rest.spec_bytes(), SEPARATOR) == split_on(src@, SEPARATOR),
        decreases rest.spec_bytes().len(),
    {
        let ghost bytes = rest.spec_bytes();
        proof {
            encode_utf8_valid_utf8(rest@);
            lemma_first_index(bytes, SEPARATOR);
        }
        match find_byte(rest.as_bytes(), SEPARATOR) {
            None => {
                msg.push(rest);
                proof {
                    assert forall|i: int| 0 <= i < msg@.len() implies texts_of(msg@)[i]
                        == frame_texts(src@)[i] by {
                        encode_utf8_decode_utf8(msg@[i]@);
                    }
                }
                return Ok(msg);
            },
            Some(end) => {
                proof {
                    is_char_boundary_iff_not_is_continuation_byte(bytes, end as int);
                }
                let (head, tail) = rest.split_at(end);
                proof {
                    encode_utf8_valid_utf8(tail@);
                    reveal_with_fuel(is_char_boundary, 2);
                    reveal_with_fuel(valid_utf8, 2);
                }
                let (_, next) = tail.split_at(1);
                msg.push(head);
                proof {
                    assert(next.spec_bytes() == bytes.skip(end + 1));
                }
                rest = next;
            },
        }
    }
}

/// The field at place `at`, empty where the frame has no such place.
pub fn text_at<'a>(msg: &[&'a str], at: usize) -> (text: &'a str)
    ensures
        text@ == field(texts_of(msg@), at as int),
{
    if at < msg.len() {
        msg[at]
    } else {
        proof {
            reveal_strlit("");
        }
        ""
    }
}

/// Whether `text` is the one ASCII character that `tag` stands for.
fn is_tag(text: &str, tag: u8) -> (same: bool)
    requires
        tag < 128,
    ensures
        same == (text@ == tag_text(tag)),
{
    let bytes = text.as_bytes();
    proof {
        lemma_tag_bytes(text@, tag);
    }
    bytes.len() == 1 && bytes[0] == tag
}

/// The place of the symbol in a trade frame.
pub const SYMBOL_AT: usize = 1;

/// The place of the price of the last trade.
pub const LAST_AT: usize = 2;

/// The place of the size of the last trade.
pub const LAST_SIZE_AT: usize = 3;

/// The place of the time of day of the last trade.
pub const LAST_TIME_AT: usize = 4;

/// The place of the market center of the last trade.
pub const LAST_MARKET_AT: usize = 5;

/// The place of the volume of the session.
pub const VOLUME_AT: usize = 6;

/// The place of the best bid.
pub const BID_AT: usize = 7;

/// The place of the size of the best bid.
pub const BID_SIZE_AT: usize = 8;

/// The place of the best ask.
pub const ASK_AT: usize = 9;

/// The place of the size of the best ask.
pub const ASK_SIZE_AT: usize = 10;

/// The place of the price at which the session opened.
pub const OPEN_AT: usize = 11;

/// The place of the highest price of the session.
pub const HIGH_AT: usize = 12;

/// The place of the lowest price of the session.
pub const LOW_AT: usize = 13;

/// The place of the price at which the last session closed.
pub const CLOSE_AT: usize = 14;

/// The place of the tag that says what the frame holds.
pub const CONTENTS_AT: usize = 15;

/// The place of the tag that gives the conditions of the last trade.
pub const CONDITIONS_AT: usize = 16;

/// Where the date and time stand in a frame that tells the feed's time.
pub const STAMP_AT: usize = 1;

/// One value for each price field of a trade frame.
#[derive(Clone, Debug, PartialEq)]
pub struct PriceFields<T> {
    pub last: T,
    pub bid: T,
    pub ask: T,
    pub open: T,
    pub high: T,
    pub low: T,
    pub close: T,
}

/// The text that a price is to be read from: the field, unless it is empty. An
/// empty field holds no price, and nobody is to read it as a number.
pub open spec fn price_text(text: Seq<char>) -> Option<Seq<char>> {
    if text.len() == 0 {
        None
    } else {
        Some(text)
    }
}

/// The texts that the caller is to read prices from. Only a trade frame with
/// all its fields has any. Its last price is due in every trade and is to be
/// read even where its field is empty; of the other prices only those whose
/// field holds something.
pub open spec fn price_texts_of(msg: Seq<Seq<char>>) -> PriceFields<Option<Seq<char>>> {
    if field(msg, 0) == tag_text(TRADE_TAG) && msg.len() >= TRADE_FIELDS {
        PriceFields {
            last: Some(field(msg, LAST_AT as int)),
            bid: price_text(field(msg, BID_AT as int)),
            ask: price_text(field(msg, ASK_AT as int)),
            open: price_text(field(msg, OPEN_AT as int)),
            high: price_text(field(msg, HIGH_AT as int)),
            low: price_text(field(msg, LOW_AT as int)),
            close: price_text(field(msg, CLOSE_AT as int)),
        }
    } else {
        PriceFields {
            last: None,
            bid: None,
            ask: None,
            open: None,
            high: None,
            low: None,
            close: None,
        }
    }
}

/// What an optional text holds.
pub open spec fn text_view(text: Option<&str>) -> Option<Seq<char>> {
    match text {
        Some(text) => Some(text@),
        None => None,
    }
}

/// What each of the optional texts holds.
pub open spec fn text_views(texts: PriceFields<Option<&str>>) -> PriceFields<Option<Seq<char>>> {
    PriceFields {
        last: text_view(texts.last),
        bid: text_view(texts.bid),
        ask: text_view(texts.ask),
        open: text_view(texts.open),
        high: text_view(texts.high),
        low: text_view(texts.low),
        close: text_view(texts.close),
    }
}

fn price_field<'a>(msg: &[&'a str], at: usize) -> (text: Option<&'a str>)
    ensures
        text_view(text) == price_text(field(texts_of(msg@), at as int)),
{
    let text = text_at(msg, at);
    if text.is_empty() {
        None
    } else {
        Some(text)
    }
}

/// The texts of the price fields of a frame, for the caller to read as floats:
/// `None` where nothing is to be read.
pub fn price_texts<'a>(msg: &[&'a str]) -> (texts: PriceFields<Option<&'a str>>)
    ensures
        text_views(texts) == price_texts_of(texts_of(msg@)),
{
    if is_tag(text_at(msg, 0), TRADE_TAG) && msg.len() >= TRADE_FIELDS {
        PriceFields {
            last: Some(text_at(msg, LAST_AT)),
            bid: price_field(msg, BID_AT),
            ask: price_field(msg, ASK_AT),
            open: price_field(msg, OPEN_AT),
            high: price_field(msg, HIGH_AT),
            low: price_field(msg, LOW_AT),
            close: price_field(msg, CLOSE_AT),
        }
    } else {
        PriceFields {
            last: None,
            bid: None,
            ask: None,
            open: None,
            high: None,
            low: None,
            close: None,
        }
    }
}

/// Two compiled formats, the one for times of day first; where one of them
/// failed to compile, the first failure.
pub open spec fn formats_pair(
    clock: Result<time::format_description::OwnedFormatItem, time::error::InvalidFormatDescription>,
    stamp: Result<time::format_description::OwnedFormatItem, time::error::InvalidFormatDescription>,
) -> Result<
    (time::format_description::OwnedFormatItem, time::format_description::OwnedFormatItem),
    time::error::InvalidFormatDescription,
> {
    match clock {
        Ok(first) => match stamp {
            Ok(second) => Ok((first, second)),
            Err(error) => Err(error),
        },
        Err(error) => Err(error),
    }
}

/// What came out of making the formats: the format for times of day and the
/// format for dates with times, or the failure.
pub open spec fn formats_view(
    formats: Result<TimeFormats, time::error::InvalidFormatDescription>,
) -> Result<
    (time::format_description::OwnedFormatItem, time::format_description::OwnedFormatItem),
    time::error::InvalidFormatDescription,
> {
    match formats {
        Ok(formats) => Ok((formats.clock_format(), formats.stamp_format())),
        Err(error) => Err(error),
    }
}

/// The compiled forms of the two time formats of the feed. They are made once
/// and only read after that.
pub struct TimeFormats {
    clock: time::format_description::OwnedFormatItem,
    stamp: time::format_description::OwnedFormatItem,
}

impl TimeFormats {
    /// The format that times of day are read with.
    pub closed spec fn clock_format(self) -> time::format_description::OwnedFormatItem {
        self.clock
    }

    /// The format that dates with times are read with.
    pub closed spec fn stamp_format(self) -> time::format_description::OwnedFormatItem {
        self.stamp
    }

    /// Puts two compiled formats together, the one for times of day first.
    /// Where one of them failed to compile, the first failure comes back.
    pub fn of(
        clock: Result<
            time::format_description::OwnedFormatItem,
            time::error::InvalidFormatDescription,
        >,
        stamp: Result<
            time::format_description::OwnedFormatItem,
            time::error::InvalidFormatDescription,
        >,
    ) -> (formats: Result<TimeFormats, time::error::InvalidFormatDescription>)
        ensures
            formats_view(formats) == formats_pair(clock, stamp),
    {
        match clock {
            Ok(clock) => match stamp {
                Ok(stamp) => Ok(TimeFormats { clock, stamp }),
                Err(error) => Err(error),
            },
            Err(error) => Err(error),
        }
    }

    /// Compiles the two formats of the feed, `CLOCK_FORMAT` and
    /// `STAMP_FORMAT`. It succeeds exactly where both compile, and fails with
    /// the error of the first that does not.
    pub fn new() -> (formats: Result<TimeFormats, time::error::InvalidFormatDescription>)
        ensures
            formats_view(formats) == formats_pair(
                compiled_format(CLOCK_FORMAT@),
                compiled_format(STAMP_FORMAT@),
            ),
    {
        TimeFormats::of(compile_format(CLOCK_FORMAT), compile_format(STAMP_FORMAT))
    }
}

/// The nanoseconds from the Unix epoch to the start of the UTC day that holds
/// the second `now`.
pub open spec fn day_start(now: int) -> int {
    (now - now % (SECONDS_PER_DAY as int)) * NANOS_PER_SECOND
}

/// The nanoseconds from midnight to a time of day.
pub open spec fn clock_nanos(clock: (u8, u8, u8, u32)) -> int {
    ((clock.0 * 60 + clock.1) * 60 + clock.2) * NANOS_PER_SECOND + clock.3
}

/// The instant of a time of day on the UTC day that holds the second `now`,
/// in nanoseconds from the Unix epoch.
pub fn instant_on_day(now: i64, clock: (u8, u8, u8, u32)) -> (nanos: i128)
    ensures
        nanos == day_start(now as int) + clock_nanos(clock),
{
    let into_day: i64 = match now.checked_rem_euclid(SECONDS_PER_DAY) {
        Some(seconds) => seconds,
        None => 0,
    };
    let midnight: i128 = (now as i128 - into_day as i128) * NANOS_PER_SECOND;
    let seconds: i128 = (clock.0 as i128 * 60 + clock.1 as i128) * 60 + clock.2 as i128;
    midnight + seconds * NANOS_PER_SECOND + clock.3 as i128
}

/// Trade is the Op for any trade returned. `P` is the type that the caller
/// reads prices as.
#[derive(Debug, PartialEq)]
pub struct Trade<P> {
    pub symbol: String,
    pub most_recent_trade: P,
    pub most_recent_trade_size: i32,
    pub most_recent_trade_time: i128,
    pub most_recent_trade_market_center: i32,
    pub total_volume: i32,
    pub bid: Option<P>,
    pub bid_size: Option<i32>,
    pub ask: Option<P>,
    pub ask_size: Option<i32>,
    pub open: Option<P>,
    pub high: Option<P>,
    pub low: Option<P>,
    pub close: Option<P>,
    pub message_contents: String,
    pub most_recent_trade_conditions: String,
}

/// What a `Trade` holds, with texts for its strings.
pub struct TradeView<P> {
    pub symbol: Seq<char>,
    pub most_recent_trade: P,
    pub most_recent_trade_size: i32,
    pub most_recent_trade_time: i128,
    pub most_recent_trade_market_center: i32,
    pub total_volume: i32,
    pub bid: Option<P>,
    pub bid_size: Option<i32>,
    pub ask: Option<P>,
    pub ask_size: Option<i32>,
    pub open: Option<P>,
    pub high: Option<P>,
    pub low: Option<P>,
    pub close: Option<P>,
    pub message_contents: Seq<char>,
    pub most_recent_trade_conditions: Seq<char>,
}

impl<P> View for Trade<P> {
    type V = TradeView<P>;

    open spec fn view(&self) -> TradeView<P> {
        TradeView {
            symbol: self.symbol@,
            most_recent_trade: self.most_recent_trade,
            most_recent_trade_size: self.most_recent_trade_size,
            most_recent_trade_time: self.most_recent_trade_time,
            most_recent_trade_market_center: self.most_recent_trade_market_center,
            total_volume: self.total_volume,
            bid: self.bid,
            bid_size: self.bid_size,
            ask: self.ask,
            ask_size: self.ask_size,
            open: self.open,
            high: self.high,
            low: self.low,
            close: self.close,
            message_contents: self.message_contents@,
            most_recent_trade_conditions: self.most_recent_trade_conditions@,
        }
    }
}

/// The fault of the first of two places that has one.
pub open spec fn or_else(first: Option<ParsingError>, next: Option<ParsingError>) -> Option<
    ParsingError,
> {
    if first is Some {
        first
    } else {
        next
    }
}

/// What is wrong with a field that must hold a whole number: what the reader
/// of numbers reports of it.
pub open spec fn number_fault(text: Seq<char>) -> Option<ParsingError> {
    match lexical_i32(text) {
        Ok(_) => None,
        Err(code) => Some(ParsingError::Number(code)),
    }
}

/// What is wrong with a field that may hold a whole number: nothing where it
/// is empty.
pub open spec fn optional_number_fault(text: Seq<char>) -> Option<ParsingError> {
    if text.len() == 0 {
        None
    } else {
        number_fault(text)
    }
}

/// The whole number of a field that may hold one: none where it is empty.
pub open spec fn optional_number(text: Seq<char>) -> Option<i32> {
    if text.len() == 0 {
        None
    } else {
        Some(lexical_i32(text)->Ok_0)
    }
}

/// What is wrong with a field that must hold a price: that the caller read
/// none from it.
pub open spec fn price_fault<P>(reading: Option<P>) -> Option<ParsingError> {
    if reading is None {
        Some(ParsingError::Float)
    } else {
        None
    }
}

/// What is wrong with a field that may hold a price: nothing where it is
/// empty, whatever the caller handed in for it.
pub open spec fn optional_price_fault<P>(text: Seq<char>, reading: Option<P>) -> Option<
    ParsingError,
> {
    if text.len() == 0 {
        None
    } else {
        price_fault(reading)
    }
}

/// The price of a field that may hold one: none where it is empty, whatever
/// the caller handed in for it.
pub open spec fn optional_price<P>(text: Seq<char>, reading: Option<P>) -> Option<P> {
    if text.len() == 0 {
        None
    } else {
        reading
    }
}

/// What is wrong with a field that must hold a time of day: what the reader
/// of times reports of it.
pub open spec fn clock_fault(
    clock_format: time::format_description::OwnedFormatItem,
    text: Seq<char>,
) -> Option<ParsingError> {
    match clock_reading(clock_format, text) {
        Ok(_) => None,
        Err(error) => Some(ParsingError::Timestamp(error)),
    }
}

/// The first thing that is wrong with a trade frame: that it lacks fields, or
/// else what is wrong with the first of its fields that is not in order,
/// going from left to right; `None` where nothing is.
pub open spec fn trade_fault<P>(
    msg: Seq<Seq<char>>,
    readings: PriceFields<Option<P>>,
    clock_format: time::format_description::OwnedFormatItem,
) -> Option<ParsingError> {
    if msg.len() < TRADE_FIELDS {
        Some(ParsingError::Incomplete)
    } else {
        field_fault(msg, readings, clock_format)
    }
}

/// What is wrong with the first field of a trade frame that is not in order,
/// going from left to right; `None` where all are.
pub open spec fn field_fault<P>(
    msg: Seq<Seq<char>>,
    readings: PriceFields<Option<P>>,
    clock_format: time::format_description::OwnedFormatItem,
) -> Option<ParsingError> {
    or_else(
        price_fault(readings.last),
        or_else(
            number_fault(field(msg, LAST_SIZE_AT as int)),
            or_else(
                clock_fault(clock_format, field(msg, LAST_TIME_AT as int)),
                or_else(
                    number_fault(field(msg, LAST_MARKET_AT as int)),
                    or_else(
                        number_fault(field(msg, VOLUME_AT as int)),
                        quote_fault(msg, readings),
                    ),
                ),
            ),
        ),
    )
}

/// The first thing that is wrong with the fields of a trade frame from the bid
/// on, all of which may be empty.
pub open spec fn quote_fault<P>(msg: Seq<Seq<char>>, readings: PriceFields<Option<P>>) -> Option<
    ParsingError,
> {
    or_else(
        optional_price_fault(field(msg, BID_AT as int), readings.bid),
        or_else(
            optional_number_fault(field(msg, BID_SIZE_AT as int)),
            or_else(
                optional_price_fault(field(msg, ASK_AT as int), readings.ask),
                or_else(
                    optional_number_fault(field(msg, ASK_SIZE_AT as int)),
                    or_else(
                        optional_price_fault(field(msg, OPEN_AT as int), readings.open),
                        or_else(
                            optional_price_fault(field(msg, HIGH_AT as int), readings.high),
                            or_else(
                                optional_price_fault(field(msg, LOW_AT as int), readings.low),
                                optional_price_fault(field(msg, CLOSE_AT as int), readings.close),
                            ),
                        ),
                    ),
                ),
            ),
        ),
    )
}

/// The trade that a frame without a fault holds. The time of the trade is its
/// time of day on the UTC day that holds the second `now`.
pub open spec fn trade_value<P>(
    msg: Seq<Seq<char>>,
    readings: PriceFields<Option<P>>,
    clock_format: time::format_description::OwnedFormatItem,
    now: int,
) -> TradeView<P> {
    TradeView {
        symbol: field(msg, SYMBOL_AT as int),
        most_recent_trade: readings.last->0,
        most_recent_trade_size: lexical_i32(field(msg, LAST_SIZE_AT as int))->Ok_0,
        most_recent_trade_time: (day_start(now) + clock_nanos(
            clock_reading(clock_format, field(msg, LAST_TIME_AT as int))->Ok_0,
        )) as i128,
        most_recent_trade_market_center: lexical_i32(field(msg, LAST_MARKET_AT as int))->Ok_0,
        total_volume: lexical_i32(field(msg, VOLUME_AT as int))->Ok_0,
        bid: optional_price(field(msg, BID_AT as int), readings.bid),
        bid_size: optional_number(field(msg, BID_SIZE_AT as int)),
        ask: optional_price(field(msg, ASK_AT as int), readings.ask),
        ask_size: optional_number(field(msg, ASK_SIZE_AT as int)),
        open: optional_price(field(msg, OPEN_AT as int), readings.open),
        high: optional_price(field(msg, HIGH_AT as int), readings.high),
        low: optional_price(field(msg, LOW_AT as int), readings.low),
        close: optional_price(field(msg, CLOSE_AT as int), readings.close),
        message_contents: field(msg, CONTENTS_AT as int),
        most_recent_trade_conditions: field(msg, CONDITIONS_AT as int),
    }
}

fn required_number(text: &str) -> (read: Result<i32, ParsingError>)
    ensures
        match read {
            Ok(number) => lexical_i32(text@) matches Ok(value) && value == number,
            Err(error) => number_fault(text@) == Some(error),
        },
{
    match parse_i32(text) {
        Ok(number) => Ok(number),
        Err(code) => Err(ParsingError::Number(code)),
    }
}

fn read_optional_number(text: &str) -> (read: Result<Option<i32>, ParsingError>)
    ensures
        match read {
            Ok(number) => optional_number_fault(text@) is None && number == optional_number(
                text@,
            ),
            Err(error) => optional_number_fault(text@) == Some(error),
        },
{
    if text.is_empty() {
        Ok(None)
    } else {
        match parse_i32(text) {
            Ok(number) => Ok(Some(number)),
            Err(code) => Err(ParsingError::Number(code)),
        }
    }
}

fn read_optional_price<P>(text: &str, reading: Option<P>) -> (read: Result<
    Option<P>,
    ParsingError,
>)
    ensures
        match read {
            Ok(price) => optional_price_fault(text@, reading) is None && price == optional_price(
                text@,
                reading,
            ),
            Err(error) => optional_price_fault(text@, reading) == Some(error),
        },
{
    if text.is_empty() {
        Ok(None)
    } else {
        match reading {
            Some(price) => Ok(Some(price)),
            None => Err(ParsingError::Float),
        }
    }
}

impl<P> Trade<P> {
    /// Reads the fields of a trade frame, from left to right, and stops at
    /// the first that is wrong. A frame that lacks fields is wrong before any
    /// field is read. `readings` holds what the caller read from the
    /// texts that `price_texts` handed out; `now` is the second in which the
    /// frame is read, counted from the Unix epoch.
    pub fn parse(
        msg: &[&str],
        readings: PriceFields<Option<P>>,
        formats: &TimeFormats,
        now: i64,
    ) -> (parsed: Result<Trade<P>, ParsingError>)
        ensures
            match parsed {
                Ok(trade) => {
                    &&& trade_fault(texts_of(msg@), readings, formats.clock_format()) is None
                    &&& trade@ == trade_value(
                        texts_of(msg@),
                        readings,
                        formats.clock_format(),
                        now as int,
                    )
                },
                Err(error) => trade_fault(texts_of(msg@), readings, formats.clock_format())
                    == Some(error),
            },
    {
        if msg.len() < TRADE_FIELDS {
            return Err(ParsingError::Incomplete);
        }
        let symbol = String::from_str(text_at(msg, SYMBOL_AT));
        let most_recent_trade = match readings.last {
            Some(price) => price,
            None => {
                return Err(ParsingError::Float);
            },
        };
        let most_recent_trade_size = required_number(text_at(msg, LAST_SIZE_AT))?;
        let clock = match read_clock(text_at(msg, LAST_TIME_AT), &formats.clock) {
            Ok(clock) => clock,
            Err(error) => {
                return Err(ParsingError::Timestamp(error));
            },
        };
        let most_recent_trade_time = instant_on_day(now, clock);
        let most_recent_trade_market_center = required_number(text_at(msg, LAST_MARKET_AT))?;
        let total_volume = required_number(text_at(msg, VOLUME_AT))?;
        let bid = read_optional_price(text_at(msg, BID_AT), readings.bid)?;
        let bid_size = read_optional_number(text_at(msg, BID_SIZE_AT))?;
        let ask = read_optional_price(text_at(msg, ASK_AT), readings.ask)?;
        let ask_size = read_optional_number(text_at(msg, ASK_SIZE_AT))?;
        let open = read_optional_price(text_at(msg, OPEN_AT), readings.open)?;
        let high = read_optional_price(text_at(msg, HIGH_AT), readings.high)?;
        let low = read_optional_price(text_at(msg, LOW_AT), readings.low)?;
        let close = read_optional_price(text_at(msg, CLOSE_AT), readings.close)?;
        let message_contents = String::from_str(text_at(msg, CONTENTS_AT));
        let most_recent_trade_conditions = String::from_str(text_at(msg, CONDITIONS_AT));
        Ok(
            Trade {
                symbol,
                most_recent_trade,
                most_recent_trade_size,
                most_recent_trade_time,
                most_recent_trade_market_center,
                total_volume,
                bid,
                bid_size,
                ask,
                ask_size,
                open,
                high,
                low,
                close,
                message_contents,
                most_recent_trade_conditions,
            },
        )
    }
}

/// The feed's own time, in nanoseconds from the Unix epoch.
#[derive(Debug, PartialEq)]
pub struct Timestamp {
    timestamp: i128,
}

impl View for Timestamp {
    type V = i128;

    closed spec fn view(&self) -> i128 {
        self.timestamp
    }
}

/// The nanoseconds from the Unix epoch to a date and time that a clock
/// `offset` seconds ahead of UTC shows. `civil` holds the whole seconds from
/// 1970-01-01 00:00:00 to that date and time, both as that clock shows them,
/// and the nanoseconds past them.
pub open spec fn utc_nanos(civil: (i64, u32), offset: int) -> int {
    (civil.0 - offset) * NANOS_PER_SECOND + civil.1
}

/// What a frame that tells the feed's time is read as: the nanoseconds from
/// the Unix epoch to the date and time in its second field, which the feed's
/// clock shows, `offset` seconds ahead of UTC; or that the frame lacks that
/// field; or what the reader of times reports of it.
pub open spec fn stamp_of(
    msg: Seq<Seq<char>>,
    stamp_format: time::format_description::OwnedFormatItem,
    offset: int,
) -> Result<i128, ParsingError> {
    if msg.len() < TIMESTAMP_FIELDS {
        Err(ParsingError::Incomplete)
    } else {
        match stamp_reading(stamp_format, field(msg, STAMP_AT as int)) {
            Ok(civil) => Ok(utc_nanos(civil, offset) as i128),
            Err(error) => Err(ParsingError::Timestamp(error)),
        }
    }
}

/// The nanoseconds from the Unix epoch to a date and time that a clock
/// `offset` seconds ahead of UTC shows.
pub fn instant_at_offset(civil: (i64, u32), offset: i32) -> (nanos: i128)
    ensures
        nanos == utc_nanos(civil, offset as int),
{
    (civil.0 as i128 - offset as i128) * NANOS_PER_SECOND + civil.1 as i128
}

/// What came out of reading a frame that tells the feed's time.
pub open spec fn stamp_outcome(parsed: Result<Timestamp, ParsingError>) -> Result<
    i128,
    ParsingError,
> {
    match parsed {
        Ok(stamp) => Ok(stamp@),
        Err(error) => Err(error),
    }
}

impl Timestamp {
    /// The feed's time `timestamp` nanoseconds from the Unix epoch.
    pub fn new(timestamp: i128) -> (stamp: Timestamp)
        ensures
            stamp@ == timestamp,
    {
        Timestamp { timestamp }
    }

    /// Reads the date and time of a frame that tells the feed's time. They
    /// stand in the second field as the feed's clock shows them. `offset` says
    /// how many seconds that clock is ahead of UTC: `DAYLIGHT_OFFSET` while
    /// daylight saving is in effect, `STANDARD_OFFSET` while it is not.
    pub fn parse(msg: &[&str], formats: &TimeFormats, offset: i32) -> (parsed: Result<
        Timestamp,
        ParsingError,
    >)
        ensures
            stamp_outcome(parsed) == stamp_of(
                texts_of(msg@),
                formats.stamp_format(),
                offset as int,
            ),
    {
        if msg.len() < TIMESTAMP_FIELDS {
            return Err(ParsingError::Incomplete);
        }
        match read_stamp(text_at(msg, STAMP_AT), &formats.stamp) {
            Ok(civil) => Ok(Timestamp { timestamp: instant_at_offset(civil, offset) }),
            Err(error) => Err(ParsingError::Timestamp(error)),
        }
    }

    /// The nanoseconds from the Unix epoch to the feed's time.
    pub fn timestamp(&self) -> (nanos: i128)
        ensures
            nanos == self@,
    {
        self.timestamp
    }
}

/// One message of the feed.
#[derive(Debug, PartialEq)]
pub enum Ops<P> {
    Trade(Trade<P>),
    Timestamp(Timestamp),
    ServerMessage,
    Unknown,
}

/// What an `Ops` holds.
pub enum OpsView<P> {
    Trade(TradeView<P>),
    Timestamp(i128),
    ServerMessage,
    Unknown,
}

impl<P> View for Ops<P> {
    type V = OpsView<P>;

    open spec fn view(&self) -> OpsView<P> {
        match self {
            Ops::Trade(trade) => OpsView::Trade(trade@),
            Ops::Timestamp(stamp) => OpsView::Timestamp(stamp@),
            Ops::ServerMessage => OpsView::ServerMessage,
            Ops::Unknown => OpsView::Unknown,
        }
    }
}

/// What a frame is read as: its message, or its first fault. The first field
/// decides what the frame is. A first field that is none of the three known
/// ones is no fault: such a frame is a message of no known kind. `offset`
/// says how many seconds the feed's clock is ahead of UTC, and `now` is the
/// second in which the frame is read.
pub open spec fn ops_of<P>(
    msg: Seq<Seq<char>>,
    readings: PriceFields<Option<P>>,
    clock_format: time::format_description::OwnedFormatItem,
    stamp_format: time::format_description::OwnedFormatItem,
    offset: int,
    now: int,
) -> Result<OpsView<P>, ParsingError> {
    let tag = field(msg, 0);
    if tag == tag_text(TRADE_TAG) {
        match trade_fault(msg, readings, clock_format) {
            Some(fault) => Err(fault),
            None => Ok(OpsView::Trade(trade_value(msg, readings, clock_format, now))),
        }
    } else if tag == tag_text(TIMESTAMP_TAG) {
        match stamp_of(msg, stamp_format, offset) {
            Ok(nanos) => Ok(OpsView::Timestamp(nanos)),
            Err(fault) => Err(fault),
        }
    } else if tag == tag_text(SERVER_TAG) {
        Ok(OpsView::ServerMessage)
    } else {
        Ok(OpsView::Unknown)
    }
}

/// What came out of reading a frame.
pub open spec fn outcome_of<P>(parsed: Result<Ops<P>, ParsingError>) -> Result<
    OpsView<P>,
    ParsingError,
> {
    match parsed {
        Ok(ops) => Ok(ops@),
        Err(error) => Err(error),
    }
}

impl<P> Ops<P> {
    /// Reads the fields of a frame into a message. `offset` says how many
    /// seconds the feed's clock is ahead of UTC, and `now` is the second in
    /// which the frame is read, counted from the Unix epoch. Only a trade
    /// looks at `readings` and at `now`; only a frame that tells the feed's
    /// time looks at `offset`.
    pub fn parse_at(
        msg: &[&str],
        readings: PriceFields<Option<P>>,
        formats: &TimeFormats,
        offset: i32,
        now: i64,
    ) -> (parsed: Result<Ops<P>, ParsingError>)
        ensures
            outcome_of(parsed) == ops_of(
                texts_of(msg@),
                readings,
                formats.clock_format(),
                formats.stamp_format(),
                offset as int,
                now as int,
            ),
    {
        let tag = text_at(msg, 0);
        if is_tag(tag, TRADE_TAG) {
            match Trade::parse(msg, readings, formats, now) {
                Ok(trade) => Ok(Ops::Trade(trade)),
                Err(error) => Err(error),
            }
        } else if is_tag(tag, TIMESTAMP_TAG) {
            match Timestamp::parse(msg, formats, offset) {
                Ok(stamp) => Ok(Ops::Timestamp(stamp)),
                Err(error) => Err(error),
            }
        } else if is_tag(tag, SERVER_TAG) {
            Ok(Ops::ServerMessage)
        } else {
            Ok(Ops::Unknown)
        }
    }

    /// Reads the fields of a frame into a message, at the time of the call.
    /// The clock is read for a trade frame only. What comes back is what
    /// `parse_at` gives for some second; only the time of a trade depends on
    /// which.
    pub fn parse(
        msg: &[&str],
        readings: PriceFields<Option<P>>,
        formats: &TimeFormats,
        offset: i32,
    ) -> (parsed: Result<Ops<P>, ParsingError>)
        ensures
            exists|now: i64|
                outcome_of(parsed) == #[trigger] ops_of(
                    texts_of(msg@),
                    readings,
                    formats.clock_format(),
                    formats.stamp_format(),
                    offset as int,
                    now as int,
                ),
    {
        let now = if is_tag(text_at(msg, 0), TRADE_TAG) {
            utc_now()
        } else {
            0
        };
        Ops::parse_at(msg, readings, formats, offset, now)
    }
}

/// A frame whose first field is none of the known ones is read as a message
/// of no known kind, never as a fault, whatever else it holds.
pub proof fn law_unknown_tag_is_no_fault<P>(
    msg: Seq<Seq<char>>,
    readings: PriceFields<Option<P>>,
    clock_format: time::format_description::OwnedFormatItem,
    stamp_format: time::format_description::OwnedFormatItem,
    offset: int,
    now: int,
)
    requires
        field(msg, 0) != tag_text(TRADE_TAG),
        field(msg, 0) != tag_text(TIMESTAMP_TAG),
        field(msg, 0) != tag_text(SERVER_TAG),
    ensures
        ops_of(msg, readings, clock_format, stamp_format, offset, now) == Ok::<
            OpsView<P>,
            ParsingError,
        >(OpsView::Unknown),
{
}

/// The second in which a frame is read enters nothing but the time of a
/// trade: every fault, and every message that is no trade, is the same in
/// every second, and so is all of a trade but its time.
pub proof fn law_only_trade_time_depends_on_the_second<P>(
    msg: Seq<Seq<char>>,
    readings: PriceFields<Option<P>>,
    clock_format: time::format_description::OwnedFormatItem,
    stamp_format: time::format_description::OwnedFormatItem,
    offset: int,
    now: int,
    other: int,
)
    ensures
        match ops_of(msg, readings, clock_format, stamp_format, offset, now) {
            Ok(OpsView::Trade(trade)) => ops_of(
                msg,
                readings,
                clock_format,
                stamp_format,
                offset,
                other,
            ) == Ok::<OpsView<P>, ParsingError>(
                OpsView::Trade(
                    TradeView {
                        most_recent_trade_time: trade_value(
                            msg,
                            readings,
                            clock_format,
                            other,
                        ).most_recent_trade_time,
                        ..trade
                    },
                ),
            ),
            outcome => ops_of(msg, readings, clock_format, stamp_format, offset, other) == outcome,
        },
{
}

/// A frame that lacks fields of its kind is never read as a message of that
/// kind: a trade frame of fewer than seventeen fields and a frame that tells
/// the feed's time without a second field are faulty, whatever they hold.
pub proof fn law_short_frame_is_faulty<P>(
    msg: Seq<Seq<char>>,
    readings: PriceFields<Option<P>>,
    clock_format: time::format_description::OwnedFormatItem,
    stamp_format: time::format_description::OwnedFormatItem,
    offset: int,
    now: int,
)
    requires
        (field(msg, 0) == tag_text(TRADE_TAG) && msg.len() < TRADE_FIELDS) || (field(msg, 0)
            == tag_text(TIMESTAMP_TAG) && msg.len() < TIMESTAMP_FIELDS),
    ensures
        ops_of(msg, readings, clock_format, stamp_format, offset, now) == Err::<
            OpsView<P>,
            ParsingError,
        >(ParsingError::Incomplete),
{
}

/// A fault stays in its frame. Of two frames that follow each other on the
/// wire, the second reaches the reader as it was sent and is read as it would
/// be alone, whatever the first holds and whatever it is read as.
pub proof fn law_fault_stays_in_its_frame<P>(
    first: Seq<u8>,
    second: Seq<u8>,
    readings: PriceFields<Option<P>>,
    clock_format: time::format_description::OwnedFormatItem,
    stamp_format: time::format_description::OwnedFormatItem,
    offset: int,
    now: int,
)
    requires
        first.len() > 0,
        second.len() > 0,
        forall|i: int| 0 <= i < first.len() ==> first[i] != DELIMITER,
        forall|i: int| 0 <= i < second.len() ==> second[i] != DELIMITER,
    ensures
        frames_of(first + seq![DELIMITER] + second + seq![DELIMITER]).len() == 2,
        ops_of(
            frame_texts(frames_of(first + seq![DELIMITER] + second + seq![DELIMITER])[1]),
            readings,
            clock_format,
            stamp_format,
            offset,
            now,
        ) == ops_of(frame_texts(second), readings, clock_format, stamp_format, offset, now),
{
    law_frames_stand_alone(first, second);
}

/// A trade frame with an empty bid field has no bid: what the caller handed
/// in as the reading of the bid changes nothing, neither the trade nor the
/// fault, and the trade, where there is one, holds no bid.
pub proof fn law_empty_bid_is_no_bid<P>(
    msg: Seq<Seq<char>>,
    readings: PriceFields<Option<P>>,
    other_bid: Option<P>,
    clock_format: time::format_description::OwnedFormatItem,
    now: int,
)
    requires
        field(msg, BID_AT as int).len() == 0,
    ensures
        trade_value(msg, readings, clock_format, now).bid == None::<P>,
        trade_fault(msg, PriceFields { bid: other_bid, ..readings }, clock_format) == trade_fault(
            msg,
            readings,
            clock_format,
        ),
        trade_value(msg, PriceFields { bid: other_bid, ..readings }, clock_format, now)
            == trade_value(msg, readings, clock_format, now),
{
}

} // verus!
