//! The client's side of one connection: the commands it sends and the buffer
//! that turns what it reads into frames.
//!
//! A frame is a run of bytes that ends at a line feed. The line feed is not
//! part of the frame, and a run of no bytes is not a frame.

use vstd::prelude::*;
use vstd::slice::slice_subrange;
use vstd::string::StringExecFns;
use crate::outside::{
    new_searcher, occurs_at, search_in, searcher_needle, to_uppercase, uppercase,
};
use crate::split::{
    first_index, lemma_first_index, lemma_first_index_is, lemma_split_concat,
    lemma_split_nonempty, lemma_split_pieces_clean, split_on,
};

verus! {

/// The byte that ends a frame on the wire.
pub const DELIMITER: u8 = 10;

/// How many bytes one read asks the connection for.
pub const READ_SIZE: usize = 2048;

/// The test that a piece of the stream is a frame: it holds a byte.
pub open spec fn holds_bytes() -> spec_fn(Seq<u8>) -> bool {
    |piece: Seq<u8>| piece.len() > 0
}

/// The frames that a stream has completed: its pieces between delimiters, but
/// the last, which no delimiter has ended yet, and without the empty ones.
pub open spec fn frames_of(stream: Seq<u8>) -> Seq<Seq<u8>> {
    split_on(stream, DELIMITER).drop_last().filter(holds_bytes())
}

/// What a stream holds after its last delimiter: the start of a frame that has
/// not ended.
pub open spec fn remainder(stream: Seq<u8>) -> Seq<u8> {
    split_on(stream, DELIMITER).last()
}

/// `stream` without the delimiters that it starts with.
pub open spec fn skip_delimiters(stream: Seq<u8>) -> Seq<u8>
    decreases stream.len(),
{
    if stream.len() > 0 && stream[0] == DELIMITER {
        skip_delimiters(stream.skip(1))
    } else {
        stream
    }
}

/// The first frame that `stream` has completed, if it has completed one.
pub open spec fn first_frame(stream: Seq<u8>) -> Option<Seq<u8>> {
    let body = skip_delimiters(stream);
    let end = first_index(body, DELIMITER);
    if end < body.len() {
        Some(body.take(end))
    } else {
        None
    }
}

/// What is left of `stream` once its first frame and the delimiter that ends
/// it are taken out; where it has completed no frame, what is left once the
/// delimiters that it starts with are dropped.
pub open spec fn after_first_frame(stream: Seq<u8>) -> Seq<u8> {
    let body = skip_delimiters(stream);
    let end = first_index(body, DELIMITER);
    if end < body.len() {
        body.skip(end + 1)
    } else {
        body
    }
}

/// What the reader has given out and what it still holds after it was fed
/// `chunks` one by one, starting with `pending` in its buffer.
pub open spec fn fed_in_chunks(pending: Seq<u8>, chunks: Seq<Seq<u8>>) -> (Seq<Seq<u8>>, Seq<u8>)
    decreases chunks.len(),
{
    if chunks.len() == 0 {
        (Seq::empty(), pending)
    } else {
        let before = fed_in_chunks(pending, chunks.drop_last());
        let stream = before.1 + chunks.last();
        (before.0 + frames_of(stream), remainder(stream))
    }
}

/// The bytes of `chunks`, one chunk after the other.
pub open spec fn joined(chunks: Seq<Seq<u8>>) -> Seq<u8>
    decreases chunks.len(),
{
    if chunks.len() == 0 {
        Seq::empty()
    } else {
        joined(chunks.drop_last()) + chunks.last()
    }
}

/// A needle of one byte stands at a position exactly where that byte does.
proof fn lemma_one_byte_needle(haystack: Seq<u8>, byte: u8, at: int)
    ensures
        occurs_at(haystack, seq![byte], at) <==> (0 <= at < haystack.len() && haystack[at] == byte),
{
    if 0 <= at < haystack.len() {
        let window = haystack.subrange(at, at + 1);
        assert(window[0] == haystack[at]);
        if haystack[at] == byte {
            assert(window =~= seq![byte]);
        }
    }
}

/// Of pieces that are joined, those that hold bytes are those of the first
/// part and then those of the second; the last piece is that of the second.
proof fn lemma_pieces_joined(done: Seq<Seq<u8>>, next: Seq<Seq<u8>>)
    requires
        next.len() > 0,
    ensures
        (done + next).drop_last().filter(holds_bytes()) == done.filter(holds_bytes())
            + next.drop_last().filter(holds_bytes()),
        (done + next).last() == next.last(),
{
    assert((done + next).drop_last() == done + next.drop_last());
    Seq::filter_distributes_over_add(done, next.drop_last(), holds_bytes());
}

/// A stream that holds a delimiter has completed the piece before its first
/// delimiter, which is a frame where it holds bytes, and then the frames of
/// what follows that delimiter; its unfinished end is that of what follows.
pub proof fn lemma_first_delimiter(stream: Seq<u8>)
    requires
        first_index(stream, DELIMITER) < stream.len(),
    ensures
        frames_of(stream) == if first_index(stream, DELIMITER) > 0 {
            seq![stream.take(first_index(stream, DELIMITER))]
        } else {
            Seq::empty()
        } + frames_of(stream.skip(first_index(stream, DELIMITER) + 1)),
        remainder(stream) == remainder(stream.skip(first_index(stream, DELIMITER) + 1)),
{
    lemma_first_index(stream, DELIMITER);
    let end = first_index(stream, DELIMITER);
    let head = seq![stream.take(end)];
    let tail = split_on(stream.skip(end + 1), DELIMITER);
    lemma_split_nonempty(stream.skip(end + 1), DELIMITER);
    lemma_pieces_joined(head, tail);
    assert(head.filter(holds_bytes()) == if end > 0 {
        head
    } else {
        Seq::empty()
    }) by {
        reveal_with_fuel(Seq::filter, 2);
    }
}

/// Delimiters at the start of a stream complete no frame and change nothing
/// of what follows.
pub proof fn lemma_skip_delimiters(stream: Seq<u8>)
    ensures
        frames_of(skip_delimiters(stream)) == frames_of(stream),
        remainder(skip_delimiters(stream)) == remainder(stream),
        skip_delimiters(stream).len() <= stream.len(),
        skip_delimiters(stream).len() > 0 ==> skip_delimiters(stream)[0] != DELIMITER,
    decreases stream.len(),
{
    if stream.len() > 0 && stream[0] == DELIMITER {
        lemma_skip_delimiters(stream.skip(1));
        lemma_first_index_is(stream, DELIMITER, 0);
        lemma_first_delimiter(stream);
    }
}

/// A stream's frames are its first frame and then the frames of what is left
/// after it; what is left has the same unfinished end.
pub proof fn lemma_first_frame(stream: Seq<u8>)
    ensures
        frames_of(stream) == match first_frame(stream) {
            Some(frame) => seq![frame] + frames_of(after_first_frame(stream)),
            None => Seq::empty(),
        },
        remainder(stream) == remainder(after_first_frame(stream)),
        first_frame(stream) is None ==> after_first_frame(stream) == remainder(stream),
        first_frame(stream) matches Some(frame) ==> frame.len() > 0,
        first_frame(stream) is Some ==> after_first_frame(stream).len() < stream.len(),
{
    lemma_skip_delimiters(stream);
    let body = skip_delimiters(stream);
    lemma_first_index(body, DELIMITER);
    if first_index(body, DELIMITER) < body.len() {
        lemma_first_delimiter(body);
    }
}

/// Feeding `more` after `stream` completes the frames of `stream`, then those
/// of the unfinished end of `stream` joined with `more`.
pub proof fn lemma_frames_concat(stream: Seq<u8>, more: Seq<u8>)
    ensures
        frames_of(stream + more) == frames_of(stream) + frames_of(remainder(stream) + more),
        remainder(stream + more) == remainder(remainder(stream) + more),
{
    lemma_split_concat(stream, more, DELIMITER);
    lemma_split_nonempty(remainder(stream) + more, DELIMITER);
    lemma_pieces_joined(
        split_on(stream, DELIMITER).drop_last(),
        split_on(remainder(stream) + more, DELIMITER),
    );
}

/// A stream that holds no delimiter has completed no frame and is its own
/// unfinished end.
pub proof fn lemma_no_delimiter(stream: Seq<u8>)
    requires
        forall|i: int| 0 <= i < stream.len() ==> stream[i] != DELIMITER,
    ensures
        frames_of(stream) == Seq::<Seq<u8>>::empty(),
        remainder(stream) == stream,
{
    lemma_first_index_is(stream, DELIMITER, stream.len() as int);
}

/// Every frame that a stream has completed holds a byte, and none holds a
/// delimiter.
pub proof fn law_frames_are_whole(stream: Seq<u8>, which: int)
    requires
        0 <= which < frames_of(stream).len(),
    ensures
        frames_of(stream)[which].len() > 0,
        forall|i: int|
            0 <= i < frames_of(stream)[which].len() ==> frames_of(stream)[which][i] != DELIMITER,
{
    let done = split_on(stream, DELIMITER).drop_last();
    done.lemma_filter_pred(holds_bytes(), which);
    lemma_kept_piece(done, which);
    lemma_split_pieces_clean(stream, DELIMITER);
}

/// Each piece that holds bytes is one of the pieces.
proof fn lemma_kept_piece(pieces: Seq<Seq<u8>>, which: int)
    requires
        0 <= which < pieces.filter(holds_bytes()).len(),
    ensures
        exists|at: int| 0 <= at < pieces.len() && pieces[at] == pieces.filter(holds_bytes())[which],
    decreases pieces.len(),
{
    reveal_with_fuel(Seq::filter, 1);
    if pieces.len() > 0 {
        let before = pieces.drop_last();
        if which < before.filter(holds_bytes()).len() {
            lemma_kept_piece(before, which);
        }
    }
}

/// What each of `frames` holds.
pub open spec fn views_of(frames: Seq<Vec<u8>>) -> Seq<Seq<u8>> {
    Seq::new(frames.len(), |i: int| frames[i]@)
}

/// However a stream is cut into chunks on its way to a fresh reader, the
/// frames that the reader gives out are the pieces of the whole stream between
/// delimiters, in order, without the empty ones and without the unfinished
/// end, which the reader holds.
pub proof fn law_chunks_do_not_matter(chunks: Seq<Seq<u8>>)
    ensures
        fed_in_chunks(Seq::empty(), chunks) == (
            frames_of(joined(chunks)),
            remainder(joined(chunks)),
        ),
    decreases chunks.len(),
{
    if chunks.len() == 0 {
        lemma_no_delimiter(Seq::empty());
    } else {
        law_chunks_do_not_matter(chunks.drop_last());
        lemma_frames_concat(joined(chunks.drop_last()), chunks.last());
    }
}

/// Two ways of cutting one stream into chunks give the same frames and leave
/// the same bytes in the buffer.
pub proof fn law_same_stream_same_frames(one: Seq<Seq<u8>>, other: Seq<Seq<u8>>)
    requires
        joined(one) == joined(other),
    ensures
        fed_in_chunks(Seq::empty(), one) == fed_in_chunks(Seq::empty(), other),
{
    law_chunks_do_not_matter(one);
    law_chunks_do_not_matter(other);
}

/// Two frames that follow each other on the wire come out as they went in,
/// whatever either of them holds.
pub proof fn law_frames_stand_alone(first: Seq<u8>, second: Seq<u8>)
    requires
        first.len() > 0,
        second.len() > 0,
        forall|i: int| 0 <= i < first.len() ==> first[i] != DELIMITER,
        forall|i: int| 0 <= i < second.len() ==> second[i] != DELIMITER,
    ensures
        frames_of(first + seq![DELIMITER] + second + seq![DELIMITER]) == seq![first, second],
        remainder(first + seq![DELIMITER] + second + seq![DELIMITER]) == Seq::<u8>::empty(),
{
    let one = first + seq![DELIMITER];
    let two = second + seq![DELIMITER];
    lemma_one_frame(first);
    lemma_one_frame(second);
    lemma_frames_concat(one, two);
    assert(one + two == first + seq![DELIMITER] + second + seq![DELIMITER]);
}

/// A run of bytes without a delimiter, followed by one, is one frame.
proof fn lemma_one_frame(frame: Seq<u8>)
    requires
        frame.len() > 0,
        forall|i: int| 0 <= i < frame.len() ==> frame[i] != DELIMITER,
    ensures
        frames_of(frame + seq![DELIMITER]) == seq![frame],
        remainder(frame + seq![DELIMITER]) == Seq::<u8>::empty(),
{
    let stream = frame + seq![DELIMITER];
    lemma_first_index_is(stream, DELIMITER, frame.len() as int);
    assert(stream.take(frame.len() as int) == frame);
    lemma_first_frame(stream);
    lemma_no_delimiter(Seq::empty());
}

/// The state of one connection's reader: the bytes that were read and have not
/// left as a frame yet.
pub struct IQFeed {
    ice_breaker: memmem::TwoWaySearcher<'static>,
    buffer: Vec<u8>,
    scanned: usize,
}

impl IQFeed {
    /// What holds of every reader between calls: its searcher looks for the
    /// delimiter, and the part of the buffer that counts as searched lies in
    /// the buffer and holds no delimiter.
    pub closed spec fn wf(self) -> bool {
        &&& searcher_needle(self.ice_breaker) == seq![DELIMITER]
        &&& self.scanned <= self.buffer@.len()
        &&& forall|i: int| 0 <= i < self.scanned ==> self.buffer@[i] != DELIMITER
    }

    /// The bytes in the buffer, oldest first.
    pub closed spec fn pending(self) -> Seq<u8> {
        self.buffer@
    }

    /// How many bytes at the start of the buffer were searched and found to
    /// hold no delimiter. No search looks at them again.
    pub closed spec fn scanned(self) -> nat {
        self.scanned as nat
    }

    /// The bytes that count as searched lie in the buffer and hold no
    /// delimiter.
    pub proof fn lemma_scanned_holds_no_delimiter(self)
        requires
            self.wf(),
        ensures
            self.scanned() <= self.pending().len(),
            forall|i: int| 0 <= i < self.scanned() ==> self.pending()[i] != DELIMITER,
    {
    }

    /// A reader with an empty buffer.
    pub fn new() -> (client: IQFeed)
        ensures
            client.pending() == Seq::<u8>::empty(),
            client.scanned() == 0,
            client.wf(),
    {
        let needle: &'static [u8] = "\n".as_bytes();
        proof {
            reveal_strlit("\n");
            vstd::utf8::is_ascii_chars_encode_utf8("\n"@);
        }
        IQFeed { ice_breaker: new_searcher(needle), buffer: Vec::new(), scanned: 0 }
    }

    /// Appends what one read brought to the buffer.
    pub fn push(&mut self, bytes: &[u8])
        requires
            old(self).wf(),
        ensures
            final(self).pending() == old(self).pending() + bytes@,
            final(self).scanned() == old(self).scanned(),
            final(self).wf(),
    {
        self.buffer.extend_from_slice(bytes);
    }

    /// Takes the first complete frame out of the buffer, with the delimiter
    /// that ends it and any delimiters before it. Where the buffer holds no
    /// complete frame, only the delimiters at its start leave.
    pub fn next_frame(&mut self) -> (frame: Option<Vec<u8>>)
        requires
            old(self).wf(),
        ensures
            match frame {
                Some(bytes) => first_frame(old(self).pending()) == Some(bytes@) && bytes@.len() > 0,
                None => first_frame(old(self).pending()) is None,
            },
            final(self).pending() == after_first_frame(old(self).pending()),
            final(self).scanned() + (old(self).pending().len() - final(self).pending().len())
                >= old(self).scanned(),
            frame is None ==> final(self).scanned() == final(self).pending().len(),
            final(self).wf(),
    {
        proof {
            lemma_first_frame(old(self).pending());
        }
        loop
            invariant
                self.wf(),
                first_frame(old(self).buffer@) matches Some(first) ==> first.len() > 0,
                skip_delimiters(self.buffer@) == skip_delimiters(old(self).buffer@),
                self.buffer@.len() <= old(self).buffer@.len(),
                self.scanned as int + (old(self).buffer@.len() - self.buffer@.len()) >= old(
                    self,
                ).scanned,
            decreases self.buffer@.len(),
        {
            let haystack = slice_subrange(self.buffer.as_slice(), self.scanned, self.buffer.len());
            let found = search_in(&self.ice_breaker, haystack);
            let ghost all = self.buffer@;
            let ghost from = self.scanned as int;
            match found {
                None => {
                    proof {
                        assert forall|i: int| 0 <= i < all.len() implies all[i] != DELIMITER by {
                            if i >= from {
                                lemma_one_byte_needle(haystack@, DELIMITER, i - from);
                            }
                        }
                        lemma_first_index_is(all, DELIMITER, all.len() as int);
                    }
                    self.scanned = self.buffer.len();
                    return None;
                },
                Some(offset) => {
                    proof {
                        lemma_one_byte_needle(haystack@, DELIMITER, offset as int);
                        assert forall|i: int| 0 <= i < from + offset implies all[i]
                            != DELIMITER by {
                            if i >= from {
                                lemma_one_byte_needle(haystack@, DELIMITER, i - from);
                            }
                        }
                        lemma_first_index_is(all, DELIMITER, from + offset);
                    }
                    let end: usize = self.scanned + offset;
                    if end == 0 {
                        self.buffer.remove(0);
                        continue ;
                    }
                    self.scanned = 0;
                    let mut rest = self.buffer.split_off(end + 1);
                    self.buffer.truncate(end);
                    std::mem::swap(&mut self.buffer, &mut rest);
                    return Some(rest);
                },
            }
        }
    }

    /// One turn of the reader: appends what a read brought and takes out every
    /// frame that is complete by now, in the order of the wire.
    pub fn process(&mut self, bytes: &[u8]) -> (frames: Vec<Vec<u8>>)
        requires
            old(self).wf(),
        ensures
            final(self).wf(),
            views_of(frames@) == frames_of(old(self).pending() + bytes@),
            final(self).pending() == remainder(old(self).pending() + bytes@),
            final(self).scanned() == final(self).pending().len(),
    {
        self.push(bytes);
        let ghost stream = self.pending();
        let mut frames: Vec<Vec<u8>> = Vec::new();
        loop
            invariant
                self.wf(),
                stream == old(self).pending() + bytes@,
                views_of(frames@) + frames_of(self.pending()) == frames_of(stream),
                remainder(self.pending()) == remainder(stream),
            decreases self.pending().len(),
        {
            proof {
                lemma_first_frame(self.pending());
            }
            match self.next_frame() {
                Some(frame) => {
                    frames.push(frame);
                },
                None => {
                    return frames;
                },
            }
        }
    }

    /// The command that sets the protocol version. It is the first thing sent
    /// on a new connection.
    pub fn protocol() -> (command: &'static str)
        ensures
            command@ == "S,SET PROTOCOL,6.2\n"@,
    {
        "S,SET PROTOCOL,6.2\n"
    }

    /// The command that asks the feed for the trades of `symbol`: the letter
    /// `w`, the symbol in upper case, and a line feed.
    pub fn watch_trades(symbol: &str) -> (command: String)
        ensures
            command@ == seq!['w'] + uppercase(symbol@) + seq!['\n'],
    {
        let upper = to_uppercase(symbol);
        let mut command = String::from_str("w");
        command.append(upper.as_str());
        command.append("\n");
        proof {
            reveal_strlit("w");
            reveal_strlit("\n");
        }
        command
    }
}

} // verus!
