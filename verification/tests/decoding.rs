use iqfeed_rs::client::IQFeed;
use iqfeed_rs::errors::{Fault, ParsingError};
use iqfeed_rs::models::{
    fields, instant_at_offset, instant_on_day, price_texts, text_at, Ops, PriceFields, TimeFormats,
    Timestamp, Trade, DAYLIGHT_OFFSET, STANDARD_OFFSET, TIMESTAMP_FIELDS, TRADE_FIELDS,
};

const TRADE: &[u8] =
    b"Q,GME,190.0000,1,16:40:18.814943,19,8346145,189.56,190,300,197,199.4600,187.1102,0.0,8717,O,";

/// 2021-04-08 14:30:28 UTC, in seconds from the Unix epoch.
const NOW: i64 = 1_617_892_228;

/// 2021-04-08 00:00:00 UTC, in nanoseconds from the Unix epoch.
const MIDNIGHT: i128 = 1_617_840_000_000_000_000;

fn read(text: Option<&str>) -> Option<f32> {
    text.and_then(|text| fast_float::parse::<f32, _>(text).ok())
}

fn readings(msg: &[&str]) -> PriceFields<Option<f32>> {
    let texts = price_texts(msg);
    PriceFields {
        last: read(texts.last),
        bid: read(texts.bid),
        ask: read(texts.ask),
        open: read(texts.open),
        high: read(texts.high),
        low: read(texts.low),
        close: read(texts.close),
    }
}

fn decode_at(src: &[u8], offset: i32, now: i64) -> Result<Ops<f32>, ParsingError> {
    let formats = TimeFormats::new().unwrap();
    let msg = fields(src)?;
    Ops::parse_at(&msg, readings(&msg), &formats, offset, now)
}

fn decode(src: &[u8]) -> Result<Ops<f32>, ParsingError> {
    decode_at(src, DAYLIGHT_OFFSET, NOW)
}

fn trade(src: &[u8]) -> Trade<f32> {
    match decode(src) {
        Ok(Ops::Trade(trade)) => trade,
        other => panic!("not a trade: {:?}", other),
    }
}

fn fault(src: &[u8]) -> Fault {
    match decode(src) {
        Err(error) => error.kind(),
        other => panic!("no fault: {:?}", other),
    }
}

#[test]
fn trade_frame_is_read_field_by_field() {
    let trade = trade(TRADE);
    assert_eq!(trade.symbol, "GME");
    assert_eq!(trade.most_recent_trade, 190.0);
    assert_eq!(trade.most_recent_trade_size, 1);
    assert_eq!(trade.most_recent_trade_market_center, 19);
    assert_eq!(trade.total_volume, 8346145);
    assert_eq!(trade.bid, Some(189.56));
    assert_eq!(trade.bid_size, Some(190));
    assert_eq!(trade.ask, Some(300.0));
    assert_eq!(trade.ask_size, Some(197));
    assert_eq!(trade.open, Some(199.46));
    assert_eq!(trade.high, Some(187.1102));
    assert_eq!(trade.low, Some(0.0));
    assert_eq!(trade.close, Some(8717.0));
    assert_eq!(trade.message_contents, "O");
    assert_eq!(trade.most_recent_trade_conditions, "");
    assert_eq!(trade.most_recent_trade_time, MIDNIGHT + 60_018_814_943_000);
}

#[test]
fn trade_time_is_the_time_of_day_on_the_current_utc_day() {
    let trade = trade(TRADE);
    let day = time::OffsetDateTime::from_unix_timestamp(NOW).unwrap();
    let clock = time::Time::from_hms_micro(16, 40, 18, 814_943).unwrap();
    assert_eq!(trade.most_recent_trade_time, day.replace_time(clock).unix_timestamp_nanos());
}

#[test]
fn trade_read_now_falls_on_today() {
    let formats = TimeFormats::new().unwrap();
    let msg = fields(TRADE).unwrap();
    let before = time::OffsetDateTime::now_utc();
    let parsed: Ops<f32> = Ops::parse(&msg, readings(&msg), &formats, STANDARD_OFFSET).unwrap();
    let after = time::OffsetDateTime::now_utc();
    let clock = time::Time::from_hms_micro(16, 40, 18, 814_943).unwrap();
    let time = match parsed {
        Ops::Trade(trade) => trade.most_recent_trade_time,
        other => panic!("not a trade: {:?}", other),
    };
    assert!(
        time == before.replace_time(clock).unix_timestamp_nanos()
            || time == after.replace_time(clock).unix_timestamp_nanos()
    );
}

#[test]
fn empty_bid_is_no_bid() {
    let trade = trade(
        b"Q,GME,190.0000,1,16:40:18.814943,19,8346145,,190,300,197,199.4600,187.1102,0.0,8717,O,",
    );
    assert_eq!(trade.bid, None);
    assert_eq!(trade.bid_size, Some(190));
    assert_eq!(trade.ask, Some(300.0));
}

#[test]
fn every_optional_field_may_be_empty() {
    let trade = trade(b"Q,GME,190.0000,1,16:40:18.814943,19,8346145,,,,,,,,,O,X");
    assert_eq!(trade.bid, None);
    assert_eq!(trade.bid_size, None);
    assert_eq!(trade.ask, None);
    assert_eq!(trade.ask_size, None);
    assert_eq!(trade.open, None);
    assert_eq!(trade.high, None);
    assert_eq!(trade.low, None);
    assert_eq!(trade.close, None);
    assert_eq!(trade.message_contents, "O");
    assert_eq!(trade.most_recent_trade_conditions, "X");
}

#[test]
fn reading_handed_in_for_an_empty_field_is_left_aside() {
    let formats = TimeFormats::new().unwrap();
    let msg = fields(b"Q,GME,1.5,1,16:40:18.814943,19,7,,,,,,,,,O,").unwrap();
    let mut handed = readings(&msg);
    handed.bid = Some(42.0);
    handed.close = Some(7.0);
    match Trade::parse(&msg, handed, &formats, NOW) {
        Ok(trade) => {
            assert_eq!(trade.bid, None);
            assert_eq!(trade.close, None);
            assert_eq!(trade.most_recent_trade, 1.5);
        },
        Err(error) => panic!("fault: {:?}", error),
    }
}

#[test]
fn price_texts_leave_out_empty_fields() {
    let msg = fields(b"Q,GME,,1,16:40:18.814943,19,7,1.25,,,,2.5,,,3.5,O,").unwrap();
    let texts = price_texts(&msg);
    assert_eq!(texts.last, Some(""));
    assert_eq!(texts.bid, Some("1.25"));
    assert_eq!(texts.ask, None);
    assert_eq!(texts.open, Some("2.5"));
    assert_eq!(texts.high, None);
    assert_eq!(texts.low, None);
    assert_eq!(texts.close, Some("3.5"));
}

#[test]
fn only_a_trade_frame_has_price_texts() {
    let frames: [&[u8]; 4] =
        [b"T,20210408 14:30:28", b"O,1,2,3,4,5,6,7,8,9", b"Z,a,1.5,b,c,d,e,2.5", b""];
    for frame in frames {
        let msg = fields(frame).unwrap();
        let texts = price_texts(&msg);
        assert_eq!(texts.last, None);
        assert_eq!(texts.bid, None);
        assert_eq!(texts.ask, None);
        assert_eq!(texts.open, None);
        assert_eq!(texts.high, None);
        assert_eq!(texts.low, None);
        assert_eq!(texts.close, None);
    }
}

#[test]
fn timestamp_can_be_made_from_its_nanoseconds() {
    assert_eq!(Timestamp::new(-5).timestamp(), -5);
    assert_eq!(Timestamp::new(86_400), Timestamp::new(86_400));
    assert_ne!(Timestamp::new(86_400), Timestamp::new(86_401));
}

#[test]
fn unknown_tag_is_no_fault() {
    assert_eq!(decode(b"Z,whatever").unwrap(), Ops::Unknown);
    assert_eq!(decode(b"").unwrap(), Ops::Unknown);
    assert_eq!(decode(b"QQ,GME").unwrap(), Ops::Unknown);
    assert_eq!(decode(b"q,GME").unwrap(), Ops::Unknown);
    assert_eq!(decode(b",Q").unwrap(), Ops::Unknown);
    assert_eq!(decode(b"S,SERVER CONNECTED").unwrap(), Ops::Unknown);
}

#[test]
fn server_notice_is_read_by_its_tag_alone() {
    assert_eq!(decode(b"O").unwrap(), Ops::ServerMessage);
    assert_eq!(decode(b"O,anything,at,all").unwrap(), Ops::ServerMessage);
}

fn stamp(src: &[u8], offset: i32, now: i64) -> i128 {
    match decode_at(src, offset, now) {
        Ok(Ops::Timestamp(stamp)) => stamp.timestamp(),
        other => panic!("not a timestamp: {:?}", other),
    }
}

#[test]
fn timestamp_frame_is_read_at_the_offset_of_the_feed() {
    let frame = b"T,20210408 14:30:28";
    assert_eq!(stamp(frame, DAYLIGHT_OFFSET, NOW), 1_617_906_628_000_000_000);
    assert_eq!(stamp(frame, STANDARD_OFFSET, NOW), 1_617_910_228_000_000_000);
    assert_eq!(stamp(frame, 0, NOW), 1_617_892_228_000_000_000);
    assert_eq!(stamp(frame, 3_600, NOW), 1_617_888_628_000_000_000);
    let date = time::Date::from_calendar_date(2021, time::Month::April, 8).unwrap();
    let offset = time::UtcOffset::from_whole_seconds(DAYLIGHT_OFFSET).unwrap();
    let by_hand = date.with_hms(14, 30, 28).unwrap().assume_offset(offset).unix_timestamp_nanos();
    assert_eq!(stamp(frame, DAYLIGHT_OFFSET, NOW), by_hand);
    let later = date.with_hms(18, 30, 28).unwrap().assume_utc().unix_timestamp_nanos();
    assert_eq!(stamp(frame, DAYLIGHT_OFFSET, NOW), later);
}

#[test]
fn timestamp_frame_carries_its_own_date() {
    for now in [NOW, 0, 1_700_000_000] {
        assert_eq!(stamp(b"T,20210408 14:30:28", DAYLIGHT_OFFSET, now), 1_617_906_628_000_000_000);
    }
    assert_eq!(stamp(b"T,20211208 14:30:28", STANDARD_OFFSET, NOW), 1_638_991_828_000_000_000);
    assert_eq!(stamp(b"T,19700101 00:00:00", 0, NOW), 0);
    assert_eq!(stamp(b"T,19691231 19:00:00", STANDARD_OFFSET, NOW), 0);
}

#[test]
fn offsets_of_the_feed_are_four_and_five_hours_behind() {
    assert_eq!(DAYLIGHT_OFFSET, -4 * 3_600);
    assert_eq!(STANDARD_OFFSET, -5 * 3_600);
}

#[test]
fn instant_at_offset_takes_the_offset_from_the_reading() {
    assert_eq!(instant_at_offset((0, 0), 0), 0);
    assert_eq!(instant_at_offset((0, 1), 0), 1);
    assert_eq!(instant_at_offset((1_617_892_228, 0), -14_400), 1_617_906_628_000_000_000);
    assert_eq!(instant_at_offset((1_617_892_228, 5), -18_000), 1_617_910_228_000_000_005);
    assert_eq!(instant_at_offset((10, 999_999_999), 10), 999_999_999);
    assert_eq!(instant_at_offset((-1, 0), 1), -2_000_000_000);
    assert_eq!(
        instant_at_offset((i64::MAX, u32::MAX), i32::MIN),
        (i64::MAX as i128 - i32::MIN as i128) * 1_000_000_000 + u32::MAX as i128
    );
    assert_eq!(
        instant_at_offset((i64::MIN, 0), i32::MAX),
        (i64::MIN as i128 - i32::MAX as i128) * 1_000_000_000
    );
}

#[test]
fn timestamp_parse_reads_the_second_field() {
    let formats = TimeFormats::new().unwrap();
    let stamp = Timestamp::parse(&["T", "19700102 00:00:01"], &formats, 0).unwrap();
    assert_eq!(stamp.timestamp(), 86_401_000_000_000);
    let more = Timestamp::parse(&["T", "19700102 00:00:01", "x"], &formats, -1).unwrap();
    assert_eq!(more.timestamp(), 86_402_000_000_000);
    assert!(matches!(
        Timestamp::parse(&["T", "20211308 14:30:28"], &formats, 0),
        Err(ParsingError::Timestamp(_))
    ));
}

#[test]
fn timestamp_frame_without_its_field_is_incomplete() {
    let formats = TimeFormats::new().unwrap();
    assert!(matches!(Timestamp::parse(&["T"], &formats, 0), Err(ParsingError::Incomplete)));
    assert!(matches!(Timestamp::parse(&[], &formats, 0), Err(ParsingError::Incomplete)));
    assert!(matches!(decode(b"T"), Err(ParsingError::Incomplete)));
    assert_eq!(TIMESTAMP_FIELDS, 2);
}

#[test]
fn malformed_timestamp_is_a_time_fault() {
    assert_eq!(fault(b"T,2021-04-08 14:30:28"), Fault::Timestamp);
    assert_eq!(fault(b"T,20210408 25:30:28"), Fault::Timestamp);
    assert_eq!(fault(b"T,20210408 14:30:28 "), Fault::Timestamp);
    assert_eq!(fault(b"T,"), Fault::Timestamp);
}

#[test]
fn malformed_number_is_a_number_fault_with_its_reason() {
    let invalid = decode(b"Q,GME,190.0000,1x,16:40:18.814943,19,8346145,,,,,,,,,O,");
    assert!(matches!(invalid, Err(ParsingError::Number(lexical::ErrorCode::InvalidDigit))));
    let empty = decode(b"Q,GME,190.0000,,16:40:18.814943,19,8346145,,,,,,,,,O,");
    assert!(matches!(empty, Err(ParsingError::Number(lexical::ErrorCode::Empty))));
    let overflow = decode(b"Q,GME,190.0000,1,16:40:18.814943,19,99999999999,,,,,,,,,O,");
    assert!(matches!(overflow, Err(ParsingError::Number(lexical::ErrorCode::Overflow))));
    let underflow = decode(b"Q,GME,190.0000,1,16:40:18.814943,-99999999999,1,,,,,,,,,O,");
    assert!(matches!(underflow, Err(ParsingError::Number(lexical::ErrorCode::Underflow))));
    let optional = decode(b"Q,GME,190.0000,1,16:40:18.814943,19,1,,1.5,,,,,,,O,");
    assert!(matches!(optional, Err(ParsingError::Number(lexical::ErrorCode::InvalidDigit))));
}

#[test]
fn numbers_may_be_negative_and_reach_the_limits() {
    let trade = trade(b"Q,GME,1,-5,00:00:00.000000,2147483647,-2147483648,,,,,,,,,,");
    assert_eq!(trade.most_recent_trade_size, -5);
    assert_eq!(trade.most_recent_trade_market_center, i32::MAX);
    assert_eq!(trade.total_volume, i32::MIN);
    assert_eq!(trade.most_recent_trade_time, MIDNIGHT);
}

#[test]
fn malformed_time_of_day_is_a_time_fault() {
    assert_eq!(fault(b"Q,GME,190.0000,1,16:40:18,19,8346145,,,,,,,,,O,"), Fault::Timestamp);
    assert_eq!(fault(b"Q,GME,190.0000,1,24:40:18.814943,19,8346145,,,,,,,,,O,"), Fault::Timestamp);
    assert_eq!(fault(b"Q,GME,190.0000,1,,19,8346145,,,,,,,,,O,"), Fault::Timestamp);
}

#[test]
fn malformed_price_is_a_float_fault() {
    assert_eq!(fault(b"Q,GME,abc,1,16:40:18.814943,19,8346145,,,,,,,,,O,"), Fault::Float);
    assert_eq!(fault(b"Q,GME,,1,16:40:18.814943,19,8346145,,,,,,,,,O,"), Fault::Float);
    assert_eq!(fault(b"Q,GME,1.5,1,16:40:18.814943,19,8346145,1.2.3,,,,,,,,O,"), Fault::Float);
    assert_eq!(fault(b"Q,GME,1.5,1,16:40:18.814943,19,8346145,,,,,,,,x,O,"), Fault::Float);
}

#[test]
fn first_fault_from_the_left_is_reported() {
    assert_eq!(fault(b"Q,GME,abc,1x,bad,19,8346145,,,,,,,,,O,"), Fault::Float);
    assert_eq!(fault(b"Q,GME,1.5,1x,bad,19,8346145,zz,,,,,,,,O,"), Fault::Number);
    assert_eq!(fault(b"Q,GME,1.5,1,bad,x,8346145,zz,,,,,,,,O,"), Fault::Timestamp);
    assert_eq!(fault(b"Q,GME,1.5,1,16:40:18.814943,19,8346145,zz,y,,,,,,,O,"), Fault::Float);
    assert_eq!(fault(b"Q,GME,1.5,1,16:40:18.814943,19,8346145,,y,zz,,,,,,O,"), Fault::Number);
}

#[test]
fn trade_frame_that_lacks_fields_is_incomplete() {
    assert_eq!(TRADE_FIELDS, 17);
    let whole = std::str::from_utf8(TRADE).unwrap();
    let all: Vec<&str> = whole.split(',').collect();
    assert_eq!(all.len(), 17);
    for count in 1..17 {
        let short = all[..count].join(",");
        assert!(matches!(decode(short.as_bytes()), Err(ParsingError::Incomplete)));
        assert_eq!(fault(short.as_bytes()), Fault::Incomplete);
    }
    assert_eq!(fault(b"Q"), Fault::Incomplete);
    assert_eq!(fault(b"Q,GME"), Fault::Incomplete);
    assert_eq!(fault(b"Q,GME,x,y,z"), Fault::Incomplete);
    assert_eq!(fault(b"Q,GME,1.5,1,16:40:18.814943,19,7"), Fault::Incomplete);
    assert_eq!(fault(b"Q,GME,1.5,1,16:40:18.814943,19,7,,,,,,,,,O"), Fault::Incomplete);
    let longer = format!("{},more", whole);
    assert_eq!(decode(longer.as_bytes()).unwrap(), decode(TRADE).unwrap());
}

#[test]
fn trade_frame_that_lacks_fields_has_no_price_texts() {
    let msg = fields(b"Q,GME,1.5,1,16:40:18.814943,19,7,1.25,3,1.5,4").unwrap();
    let texts = price_texts(&msg);
    assert_eq!(texts.last, None);
    assert_eq!(texts.bid, None);
    assert_eq!(texts.ask, None);
    assert_eq!(texts.close, None);
}

#[test]
fn frame_that_is_not_utf8_is_a_utf8_fault() {
    assert!(matches!(fields(&[b'Q', b',', 0xff, 0xfe]), Err(ParsingError::UTf8(_))));
    assert!(matches!(fields(&[0xc3]), Err(ParsingError::UTf8(_))));
    assert_eq!(fault(&[b'Z', b',', 0x80]), Fault::Utf8);
}

#[test]
fn fields_are_the_texts_between_commas() {
    assert_eq!(fields(b"").unwrap(), vec![""]);
    assert_eq!(fields(b",").unwrap(), vec!["", ""]);
    assert_eq!(fields(b"Q,GME,,1,").unwrap(), vec!["Q", "GME", "", "1", ""]);
    assert_eq!(
        fields("Z,gr\u{fc}n,\u{20ac},x".as_bytes()).unwrap(),
        vec!["Z", "gr\u{fc}n", "\u{20ac}", "x"]
    );
    assert_eq!(fields(TRADE).unwrap().len(), 17);
}

#[test]
fn text_fields_are_copied_as_they_stand() {
    let trade = trade("Q, G\u{fc}M ,1.5,1,16:40:18.814943,19,7,,,,,,,,, o k ,\u{20ac}".as_bytes());
    assert_eq!(trade.symbol, " G\u{fc}M ");
    assert_eq!(trade.message_contents, " o k ");
    assert_eq!(trade.most_recent_trade_conditions, "\u{20ac}");
}

#[test]
fn text_at_is_empty_past_the_end() {
    let msg = ["Q", "GME"];
    assert_eq!(text_at(&msg, 0), "Q");
    assert_eq!(text_at(&msg, 1), "GME");
    assert_eq!(text_at(&msg, 2), "");
    assert_eq!(text_at(&msg, 16), "");
}

#[test]
fn instant_on_day_adds_the_time_of_day_to_midnight() {
    assert_eq!(instant_on_day(0, (0, 0, 0, 0)), 0);
    assert_eq!(instant_on_day(86_399, (0, 0, 0, 1)), 1);
    assert_eq!(instant_on_day(86_400, (0, 0, 1, 0)), 86_401_000_000_000);
    assert_eq!(instant_on_day(NOW, (16, 40, 18, 814_943_000)), MIDNIGHT + 60_018_814_943_000);
    assert_eq!(instant_on_day(NOW, (23, 59, 59, 999_999_999)), MIDNIGHT + 86_399_999_999_999);
    assert_eq!(instant_on_day(-1, (0, 0, 0, 0)), -86_400_000_000_000);
    assert_eq!(instant_on_day(-86_400, (1, 0, 0, 0)), -82_800_000_000_000);
    assert_eq!(
        instant_on_day(i64::MAX, (0, 0, 0, 0)),
        (i64::MAX as i128 - i64::MAX as i128 % 86_400) * 1_000_000_000
    );
    assert_eq!(
        instant_on_day(i64::MIN, (0, 0, 0, 0)),
        (i64::MIN as i128).div_euclid(86_400) * 86_400 * 1_000_000_000
    );
}

#[test]
fn fault_in_one_frame_leaves_the_next_alone() {
    let mut client = IQFeed::new();
    client.push(b"Q,GME,190.0000,one,16:40:18.814943,19,8346145,,,,,,,,,O,\n");
    client.push(TRADE);
    let frames = client.process(b"\n");
    assert_eq!(frames.len(), 2);
    assert!(matches!(decode(&frames[0]), Err(ParsingError::Number(_))));
    assert_eq!(decode(&frames[1]).unwrap(), decode(TRADE).unwrap());
    assert_eq!(decode(&frames[1]).unwrap(), decode(&frames[1]).unwrap());
}

#[test]
fn every_fault_has_its_message() {
    let number = decode(b"Q,GME,1.5,x,16:40:18.814943,19,7,,,,,,,,,O,").unwrap_err();
    assert_eq!(number.kind(), Fault::Number);
    assert_eq!(number.message(), "error parsing number");
    let time = decode(b"T,x").unwrap_err();
    assert_eq!(time.kind(), Fault::Timestamp);
    assert_eq!(time.message(), "error parsing time");
    let utf8 = decode(&[0xff]).unwrap_err();
    assert_eq!(utf8.kind(), Fault::Utf8);
    assert_eq!(utf8.message(), "error converting to utf");
    let float = decode(b"Q,GME,x,1,16:40:18.814943,19,7,,,,,,,,,O,").unwrap_err();
    assert_eq!(float.kind(), Fault::Float);
    assert_eq!(float.message(), "error parsing float");
    let incomplete = decode(b"Q,GME,1.5").unwrap_err();
    assert_eq!(incomplete.kind(), Fault::Incomplete);
    assert_eq!(incomplete.message(), "error parsing fields");
}

#[test]
fn formats_compile_and_can_be_put_together_by_hand() {
    assert!(TimeFormats::new().is_ok());
    let clock = time::format_description::parse_owned::<1>("[hour]:[minute]");
    let stamp = time::format_description::parse_owned::<1>("[year]-[month]-[day] [hour]");
    let formats = TimeFormats::of(clock, stamp).unwrap();
    let msg = ["T", "2021-04-08 14"];
    assert_eq!(Timestamp::parse(&msg, &formats, 0).unwrap().timestamp(), 1_617_890_400_000_000_000);
    let broken = time::format_description::parse_owned::<1>("[nothing]");
    let sound = time::format_description::parse_owned::<1>("[hour]");
    assert!(TimeFormats::of(broken.clone(), sound.clone()).is_err());
    assert!(TimeFormats::of(sound, broken).is_err());
}
