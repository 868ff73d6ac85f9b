use iqfeed_rs::client::{IQFeed, DELIMITER, READ_SIZE};

fn feed_all(chunks: &[&[u8]]) -> (Vec<Vec<u8>>, IQFeed) {
    let mut client = IQFeed::new();
    let mut frames = Vec::new();
    for chunk in chunks {
        frames.extend(client.process(chunk));
    }
    (frames, client)
}

fn frames_by_hand(stream: &[u8]) -> Vec<Vec<u8>> {
    let mut pieces: Vec<Vec<u8>> =
        stream.split(|byte| *byte == b'\n').map(|piece| piece.to_vec()).collect();
    pieces.pop();
    pieces.retain(|piece| !piece.is_empty());
    pieces
}

#[test]
fn partial_reads_lose_no_frame() {
    let mut client = IQFeed::new();
    let first = client.process(b"Q,GME,1");
    assert!(first.is_empty());
    let second = client.process(b"90.00\n");
    assert_eq!(second, vec![b"Q,GME,190.00".to_vec()]);
    assert!(client.process(b"").is_empty());
}

#[test]
fn leading_delimiters_collapse() {
    let (frames, _) = feed_all(&[b"\n\nQ,GME\n"]);
    assert_eq!(frames, vec![b"Q,GME".to_vec()]);
}

#[test]
fn several_frames_in_one_read_keep_their_order() {
    let (frames, _) = feed_all(&[b"T,20210408 14:30:28\nQ,GME,190\nO,hello\nQ,PL"]);
    assert_eq!(
        frames,
        vec![b"T,20210408 14:30:28".to_vec(), b"Q,GME,190".to_vec(), b"O,hello".to_vec()]
    );
}

#[test]
fn unfinished_end_waits_for_its_delimiter() {
    let mut client = IQFeed::new();
    assert_eq!(client.process(b"a\nbc"), vec![b"a".to_vec()]);
    assert_eq!(client.next_frame(), None);
    assert_eq!(client.process(b"d"), Vec::<Vec<u8>>::new());
    assert_eq!(client.process(b"\n"), vec![b"bcd".to_vec()]);
    assert_eq!(client.next_frame(), None);
}

#[test]
fn empty_lines_between_frames_are_dropped() {
    let (frames, _) = feed_all(&[b"a\n\n\nb\n\n"]);
    assert_eq!(frames, vec![b"a".to_vec(), b"b".to_vec()]);
}

#[test]
fn only_delimiters_give_no_frame() {
    let (frames, mut client) = feed_all(&[b"\n", b"\n\n", b"\n"]);
    assert!(frames.is_empty());
    assert_eq!(client.process(b"x\n"), vec![b"x".to_vec()]);
}

#[test]
fn nothing_read_gives_no_frame() {
    let (frames, _) = feed_all(&[b"", b""]);
    assert!(frames.is_empty());
}

#[test]
fn every_cut_in_two_gives_the_same_frames() {
    let stream: &[u8] = b"\nQ,GME,190.00\n\nT,20210408 14:30:28\nO,x\n\npartial";
    let whole = frames_by_hand(stream);
    assert_eq!(whole.len(), 3);
    for cut in 0..=stream.len() {
        let (frames, _) = feed_all(&[&stream[..cut], &stream[cut..]]);
        assert_eq!(frames, whole);
    }
}

#[test]
fn every_cut_in_three_gives_the_same_frames() {
    let stream: &[u8] = b"ab\n\ncd\nef\n\n\ng";
    let whole = frames_by_hand(stream);
    for first in 0..=stream.len() {
        for second in first..=stream.len() {
            let (frames, _) =
                feed_all(&[&stream[..first], &stream[first..second], &stream[second..]]);
            assert_eq!(frames, whole);
        }
    }
}

#[test]
fn one_byte_at_a_time_gives_the_same_frames() {
    let stream: &[u8] = b"Q,GME,190.0000,1\n\nZ,whatever\nT,2021";
    let mut client = IQFeed::new();
    let mut frames = Vec::new();
    for byte in stream {
        frames.extend(client.process(&[*byte]));
    }
    assert_eq!(frames, frames_by_hand(stream));
    assert_eq!(frames, vec![b"Q,GME,190.0000,1".to_vec(), b"Z,whatever".to_vec()]);
}

#[test]
fn next_frame_takes_one_frame_at_a_time() {
    let mut client = IQFeed::new();
    client.push(b"\n\none\ntwo\n\nthr");
    assert_eq!(client.next_frame(), Some(b"one".to_vec()));
    assert_eq!(client.next_frame(), Some(b"two".to_vec()));
    assert_eq!(client.next_frame(), None);
    client.push(b"ee\n");
    assert_eq!(client.next_frame(), Some(b"three".to_vec()));
    assert_eq!(client.next_frame(), None);
}

#[test]
fn delimiter_is_found_behind_what_was_searched() {
    let mut client = IQFeed::new();
    client.push(b"abcdef");
    assert_eq!(client.next_frame(), None);
    client.push(b"gh\nij");
    assert_eq!(client.next_frame(), Some(b"abcdefgh".to_vec()));
    assert_eq!(client.next_frame(), None);
    client.push(b"\n");
    assert_eq!(client.next_frame(), Some(b"ij".to_vec()));
}

#[test]
fn a_frame_may_hold_any_other_byte() {
    let (frames, _) = feed_all(&[&[0, 255, 13, 10, 44, 10]]);
    assert_eq!(frames, vec![vec![0, 255, 13], vec![44]]);
}

#[test]
fn a_long_backlog_is_cut_whole() {
    let mut stream = Vec::new();
    for number in 0..2000u32 {
        stream.extend_from_slice(format!("Q,SYM{},1.5\n", number).as_bytes());
    }
    let mut client = IQFeed::new();
    let mut frames = Vec::new();
    for chunk in stream.chunks(READ_SIZE) {
        frames.extend(client.process(chunk));
    }
    assert_eq!(frames.len(), 2000);
    assert_eq!(frames[1999], b"Q,SYM1999,1.5".to_vec());
    assert_eq!(frames, frames_by_hand(&stream));
}

#[test]
fn frames_end_at_a_line_feed_and_reads_ask_for_two_kilobytes() {
    assert_eq!(DELIMITER, b'\n');
    assert_eq!(READ_SIZE, 2048);
}

#[test]
fn protocol_command_sets_the_version() {
    assert_eq!(IQFeed::protocol(), "S,SET PROTOCOL,6.2\n");
    assert_eq!(IQFeed::protocol().as_bytes(), b"S,SET PROTOCOL,6.2\n");
}

#[test]
fn watch_command_puts_the_symbol_in_upper_case() {
    assert_eq!(IQFeed::watch_trades("pltr"), "wPLTR\n");
    assert_eq!(IQFeed::watch_trades("GME"), "wGME\n");
    assert_eq!(IQFeed::watch_trades("brk.b"), "wBRK.B\n");
    assert_eq!(IQFeed::watch_trades(""), "w\n");
}
