//! Reassembly of newline-terminated records from a byte stream that arrives
//! in chunks of arbitrary size.

use crate::source::{Delivery, DeliveryView};
use vstd::prelude::*;

verus! {

/// The byte that terminates a line.
pub const NEWLINE: u8 = 10;

/// How many bytes a reader asks of its source per read.
pub const READ_BUFFER_SIZE: usize = 2048;

/// No byte of `s` is a newline.
pub open spec fn newline_free(s: Seq<u8>) -> bool {
    forall|i: int| 0 <= i < s.len() ==> s[i] != NEWLINE
}

/// `n` is the length of the shortest prefix of `s` that ends in a newline.
pub open spec fn is_first_line_len(s: Seq<u8>, n: int) -> bool {
    &&& 1 <= n <= s.len()
    &&& s[n - 1] == NEWLINE
    &&& forall|i: int| 0 <= i < n - 1 ==> s[i] != NEWLINE
}

/// Length of the first record of `s`: up to and including the first newline,
/// or all of `s` where it holds none.
pub open spec fn line_len(s: Seq<u8>) -> nat
    decreases s.len(),
{
    if s.len() == 0 {
        0
    } else if s[0] == NEWLINE {
        1
    } else {
        1 + line_len(s.drop_first())
    }
}

/// The record that a reader holding `buffer` hands out next, if any: the
/// first terminated line, or at end of stream a non-empty unterminated rest.
pub open spec fn emitted(buffer: Seq<u8>, eof: bool) -> Option<Seq<u8>> {
    if !newline_free(buffer) {
        Some(buffer.subrange(0, line_len(buffer) as int))
    } else if eof && buffer.len() > 0 {
        Some(buffer)
    } else {
        None
    }
}

/// What stays buffered once `emitted(buffer, eof)` has been handed out.
pub open spec fn retained(buffer: Seq<u8>, eof: bool) -> Seq<u8> {
    if !newline_free(buffer) {
        buffer.subrange(line_len(buffer) as int, buffer.len() as int)
    } else if eof {
        Seq::empty()
    } else {
        buffer
    }
}

/// `line_len` is the length of the whole sequence where it holds no newline,
/// and otherwise the one length that `is_first_line_len` accepts.
pub proof fn lemma_line_len(s: Seq<u8>)
    ensures
        line_len(s) <= s.len(),
        newline_free(s) ==> line_len(s) == s.len(),
        !newline_free(s) ==> is_first_line_len(s, line_len(s) as int),
    decreases s.len(),
{
    if s.len() > 0 && s[0] != NEWLINE {
        let t = s.drop_first();
        lemma_line_len(t);
        assert(forall|i: int| 0 <= i < t.len() ==> t[i] == s[i + 1]);
        if newline_free(s) {
            assert forall|i: int| 0 <= i < t.len() implies t[i] != NEWLINE by {
                assert(s[i + 1] != NEWLINE);
            }
        } else {
            let k = choose|k: int| 0 <= k < s.len() && s[k] == NEWLINE;
            assert(t[k - 1] == NEWLINE);
            let n = line_len(s) as int;
            assert forall|i: int| 0 <= i < n - 1 implies s[i] != NEWLINE by {
                if i > 0 {
                    assert(t[i - 1] != NEWLINE);
                }
            }
        }
    }
}

/// At most one length is that of the first line.
pub proof fn lemma_first_line_len_unique(s: Seq<u8>, n: int)
    requires
        is_first_line_len(s, n),
    ensures
        !newline_free(s),
        line_len(s) == n,
{
    lemma_line_len(s);
    let m = line_len(s) as int;
    if m < n {
        assert(s[m - 1] != NEWLINE);
    } else if n < m {
        assert(s[n - 1] != NEWLINE);
    }
}

/// A record that is handed out is the front of the buffer and what stays
/// behind is the rest of it: nothing is added, dropped or reordered. Only
/// at the end of a stream can a record lack its newline, and then nothing
/// stays behind.
pub proof fn lemma_emitted_is_prefix(buffer: Seq<u8>, eof: bool)
    ensures
        match emitted(buffer, eof) {
            Some(record) => {
                &&& record + retained(buffer, eof) == buffer
                &&& record.len() > 0
                &&& newline_free(record.drop_last())
                &&& (record.last() == NEWLINE || (eof && retained(buffer, eof).len() == 0))
            },
            None => newline_free(buffer) && (eof ==> buffer.len() == 0) && (!eof ==> retained(
                buffer,
                eof,
            ) == buffer),
        },
{
    lemma_line_len(buffer);
    match emitted(buffer, eof) {
        Some(record) => {
            assert(record + retained(buffer, eof) =~= buffer);
            assert forall|i: int| 0 <= i < record.drop_last().len() implies record.drop_last()[i]
                != NEWLINE by {
                assert(record.drop_last()[i] == buffer[i]);
            }
        },
        None => {},
    }
}

/// The records that a reader holding `buffer` hands out when it is asked
/// again and again, until it has none to give.
pub open spec fn drained(buffer: Seq<u8>, eof: bool) -> Seq<Seq<u8>>
    decreases buffer.len(),
    via drained_decreases
{
    match emitted(buffer, eof) {
        Some(record) => seq![record] + drained(retained(buffer, eof), eof),
        None => Seq::empty(),
    }
}

/// What the reader still holds once it has none to give.
pub open spec fn leftover(buffer: Seq<u8>, eof: bool) -> Seq<u8>
    decreases buffer.len(),
    via leftover_decreases
{
    match emitted(buffer, eof) {
        Some(_) => leftover(retained(buffer, eof), eof),
        None => retained(buffer, eof),
    }
}

#[via_fn]
proof fn drained_decreases(buffer: Seq<u8>, eof: bool) {
    lemma_emitted_is_prefix(buffer, eof);
}

#[via_fn]
proof fn leftover_decreases(buffer: Seq<u8>, eof: bool) {
    lemma_emitted_is_prefix(buffer, eof);
}

/// The records of a stream whose whole content is `s`, delivered in a single
/// read.
pub open spec fn records(s: Seq<u8>) -> Seq<Seq<u8>> {
    drained(s, true)
}

/// All the bytes of `chunks`, in order.
pub open spec fn joined(chunks: Seq<Seq<u8>>) -> Seq<u8>
    decreases chunks.len(),
{
    if chunks.len() == 0 {
        Seq::empty()
    } else {
        chunks[0] + joined(chunks.drop_first())
    }
}

/// The records that come out of a reader that holds `held` and is driven to
/// the end of a stream that arrives as `chunks`, one read each: every read is
/// followed by taking out all the records there are, and the last one by the
/// end of the stream.
pub open spec fn delivered(held: Seq<u8>, chunks: Seq<Seq<u8>>) -> Seq<Seq<u8>>
    decreases chunks.len(),
{
    if chunks.len() == 0 {
        drained(held, true)
    } else {
        drained(held + chunks[0], false) + delivered(
            leftover(held + chunks[0], false),
            chunks.drop_first(),
        )
    }
}

/// Bytes that arrive later change nothing about the records before them:
/// a reader that drains `a` and is then given `b` hands out, in all, what a
/// reader hands out that is given both at once.
pub proof fn lemma_append(a: Seq<u8>, b: Seq<u8>, eof: bool)
    ensures
        drained(a + b, eof) == drained(a, false) + drained(leftover(a, false) + b, eof),
        leftover(a + b, eof) == leftover(leftover(a, false) + b, eof),
    decreases a.len(),
{
    lemma_line_len(a);
    if newline_free(a) {
        assert(drained(a, false) + drained(a + b, eof) =~= drained(a + b, eof));
    } else {
        let n = line_len(a) as int;
        assert(is_first_line_len(a + b, n)) by {
            assert(forall|i: int| 0 <= i < n ==> (a + b)[i] == a[i]);
        }
        lemma_first_line_len_unique(a + b, n);
        let rest = a.subrange(n, a.len() as int);
        assert((a + b).subrange(n, (a + b).len() as int) =~= rest + b);
        assert((a + b).subrange(0, n) =~= a.subrange(0, n));
        lemma_append(rest, b, eof);
        assert(drained(a + b, eof) =~= drained(a, false) + drained(leftover(a, false) + b, eof));
    }
}

/// A reader that already holds `held` and then receives `chunks` delivers
/// the records of `held` followed by all of `chunks`.
pub proof fn lemma_delivered(held: Seq<u8>, chunks: Seq<Seq<u8>>)
    ensures
        delivered(held, chunks) == records(held + joined(chunks)),
    decreases chunks.len(),
{
    if chunks.len() == 0 {
        assert(held + joined(chunks) =~= held);
    } else {
        let tail = chunks.drop_first();
        let first = held + chunks[0];
        lemma_delivered(leftover(first, false), tail);
        lemma_append(first, joined(tail), true);
        assert(first + joined(tail) =~= held + joined(chunks));
    }
}

/// Chunk-size independence: however a stream is cut into reads, the records
/// that come out are those of the same bytes delivered in a single read.
pub proof fn lemma_chunking_is_invisible(chunks: Seq<Seq<u8>>)
    ensures
        delivered(Seq::empty(), chunks) == records(joined(chunks)),
{
    lemma_delivered(Seq::empty(), chunks);
    assert(Seq::<u8>::empty() + joined(chunks) =~= joined(chunks));
}

/// Two ways of cutting the same bytes into reads give the same records.
pub proof fn lemma_same_bytes_same_records(first: Seq<Seq<u8>>, second: Seq<Seq<u8>>)
    requires
        joined(first) == joined(second),
    ensures
        delivered(Seq::empty(), first) == delivered(Seq::empty(), second),
{
    lemma_chunking_is_invisible(first);
    lemma_chunking_is_invisible(second);
}

/// What is left unterminated at the end of a stream is handed out once, as
/// it is, and nothing follows it: the buffer is empty then, and an empty
/// buffer at the end of a stream gives nothing and stays empty.
pub proof fn lemma_trailing_fragment_once(rest: Seq<u8>)
    requires
        newline_free(rest),
        rest.len() > 0,
    ensures
        emitted(rest, true) == Some(rest),
        retained(rest, true) == Seq::<u8>::empty(),
        emitted(Seq::<u8>::empty(), true) is None,
        retained(Seq::<u8>::empty(), true) == Seq::<u8>::empty(),
        drained(rest, true) == seq![rest],
        leftover(rest, true) == Seq::<u8>::empty(),
{
    assert(newline_free(Seq::<u8>::empty()));
    assert(drained(Seq::<u8>::empty(), true) =~= Seq::<Seq<u8>>::empty());
    assert(drained(rest, true) =~= seq![rest]);
    assert(leftover(Seq::<u8>::empty(), true) =~= Seq::<u8>::empty());
}

/// A reader that has handed out the last of its stream is done for good:
/// whatever still comes is ignored, so it holds nothing and has nothing to
/// give, again and again.
pub proof fn lemma_finished_stays_finished(chunk: Seq<u8>)
    ensures
        received(Seq::empty(), true, chunk) == Seq::<u8>::empty(),
        emitted(received(Seq::empty(), true, chunk), true) is None,
        retained(received(Seq::empty(), true, chunk), true) == Seq::<u8>::empty(),
{
    assert(newline_free(Seq::<u8>::empty()));
}

/// The records of a stream, put together again, are the stream.
pub proof fn lemma_records_are_the_stream(s: Seq<u8>)
    ensures
        joined(records(s)) == s,
    decreases s.len(),
{
    lemma_emitted_is_prefix(s, true);
    match emitted(s, true) {
        Some(record) => {
            let rest = retained(s, true);
            lemma_records_are_the_stream(rest);
            assert(records(s).drop_first() =~= records(rest));
            assert(records(s)[0] == record);
        },
        None => {
            assert(s =~= Seq::<u8>::empty());
        },
    }
}

/// Every record of a stream is non-empty and holds no newline but at its
/// end, and every record but the last ends in one.
pub proof fn lemma_records_shape(s: Seq<u8>, i: int)
    requires
        0 <= i < records(s).len(),
    ensures
        records(s)[i].len() > 0,
        newline_free(records(s)[i].drop_last()),
        i + 1 < records(s).len() ==> records(s)[i].last() == NEWLINE,
    decreases s.len(),
{
    lemma_emitted_is_prefix(s, true);
    let rest = retained(s, true);
    assert(records(s).drop_first() =~= records(rest));
    if i > 0 {
        lemma_records_shape(rest, i - 1);
        assert(records(s)[i] == records(rest)[i - 1]);
    } else if records(s).len() > 1 {
        assert(records(rest).len() > 0);
        assert(rest.len() > 0) by {
            if rest.len() == 0 {
                assert(newline_free(rest));
            }
        }
    }
}

/// What a reader holds after a chunk has come: the chunk behind what it held,
/// unless the reader is `closed`, that is, its stream has ended or a read has
/// failed. Then it holds what it held.
pub open spec fn received(held: Seq<u8>, closed: bool, chunk: Seq<u8>) -> Seq<u8> {
    if closed {
        held
    } else {
        held + chunk
    }
}

/// What a reader wants next.
#[derive(Debug, Clone, PartialEq, Eq)]
pub enum NextLine {
    /// A record is ready; it has left the buffer.
    Line(Vec<u8>),
    /// Nothing is ready: read up to this many bytes from the source and hand
    /// them to [`ByteLines::accept_read`].
    Read(usize),
    /// The reader is done and will never produce anything again.
    Never,
}

/// Buffer between a chunked byte source and a consumer of whole lines.
///
/// Bytes arrive through [`ByteLines::accept_read`]; records leave through
/// [`ByteLines::get_line`] and [`ByteLines::next_line`].
#[derive(Debug, Clone, PartialEq, Eq)]
pub struct ByteLines {
    buffer: Vec<u8>,
    next_index: usize,
    eof: bool,
    failed: bool,
}

impl ByteLines {
    /// The bytes received and not yet handed out.
    pub closed spec fn pending(&self) -> Seq<u8> {
        self.buffer@
    }

    /// How far the buffer has been searched for a newline already.
    pub closed spec fn cursor(&self) -> nat {
        self.next_index as nat
    }

    /// The source has reported end of stream.
    pub closed spec fn at_eof(&self) -> bool {
        self.eof
    }

    /// A read has failed; the reader is disabled for good.
    pub closed spec fn is_failed(&self) -> bool {
        self.failed
    }

    /// The cursor lies within the buffer and no newline lies before it.
    pub open spec fn wf(&self) -> bool {
        &&& self.cursor() <= self.pending().len()
        &&& newline_free(self.pending().subrange(0, self.cursor() as int))
    }

    /// A reader that has received nothing yet.
    pub fn new() -> (r: ByteLines)
        ensures
            r.wf(),
            r.pending() == Seq::<u8>::empty(),
            r.cursor() == 0,
            !r.at_eof(),
            !r.is_failed(),
    {
        ByteLines { buffer: Vec::new(), next_index: 0, eof: false, failed: false }
    }

    /// Whether the source has reported end of stream.
    pub fn is_eof(&self) -> (r: bool)
        ensures
            r == self.at_eof(),
    {
        self.eof
    }

    /// Whether a read has failed.
    pub fn has_failed(&self) -> (r: bool)
        ensures
            r == self.is_failed(),
    {
        self.failed
    }

    /// Number of bytes received and not yet handed out.
    pub fn buffered(&self) -> (r: usize)
        ensures
            r == self.pending().len(),
    {
        self.buffer.len()
    }

    /// Takes the next record out of the buffer, if one is complete.
    ///
    /// Searches from the cursor on. A newline found: the bytes up to and
    /// including it are returned and leave the buffer. None found and the
    /// stream has ended: what is left, if anything, is returned as it is. None
    /// found and the stream still open: nothing is returned, and the cursor
    /// moves to the end of the buffer so that no byte is looked at twice.
    pub fn get_line(&mut self) -> (line: Option<Vec<u8>>)
        requires
            old(self).wf(),
        ensures
            final(self).wf(),
            final(self).at_eof() == old(self).at_eof(),
            final(self).is_failed() == old(self).is_failed(),
            match line {
                Some(l) => emitted(old(self).pending(), old(self).at_eof()) == Some(l@),
                None => emitted(old(self).pending(), old(self).at_eof()) is None,
            },
            final(self).pending() == retained(old(self).pending(), old(self).at_eof()),
            final(self).cursor() == if line is None && !old(self).at_eof() {
                old(self).pending().len()
            } else {
                0
            },
    {
        let n: usize = self.buffer.len();
        let mut i: usize = self.next_index;
        assert forall|j: int| 0 <= j < i implies self.buffer@[j] != NEWLINE by {
            assert(self.buffer@.subrange(0, i as int)[j] == self.buffer@[j]);
        }
        while i < n && self.buffer[i] != NEWLINE
            invariant
                n == self.buffer@.len(),
                i <= n,
                forall|j: int| 0 <= j < i ==> self.buffer@[j] != NEWLINE,
                *self == *old(self),
            decreases n - i,
        {
            i += 1;
        }
        if i < n {
            proof {
                lemma_first_line_len_unique(self.buffer@, i + 1);
            }
            let mut line = self.buffer.split_off(i + 1);
            std::mem::swap(&mut line, &mut self.buffer);
            self.next_index = 0;
            Some(line)
        } else {
            assert(newline_free(self.buffer@));
            if self.eof {
                self.next_index = 0;
                if n > 0 {
                    let mut line: Vec<u8> = Vec::new();
                    std::mem::swap(&mut line, &mut self.buffer);
                    Some(line)
                } else {
                    assert(self.buffer@ =~= Seq::<u8>::empty());
                    None
                }
            } else {
                self.next_index = n;
                assert(self.buffer@.subrange(0, n as int) =~= self.buffer@);
                None
            }
        }
    }

    /// Takes in the result of one successful read from the source.
    ///
    /// An empty chunk is how a source reports end of stream; anything else is
    /// appended to the buffer. Once the stream has ended or a read has failed
    /// the reader takes nothing in any more: a chunk that still comes is
    /// ignored.
    pub fn accept_read(&mut self, chunk: &[u8])
        requires
            old(self).wf(),
        ensures
            final(self).wf(),
            final(self).cursor() == old(self).cursor(),
            final(self).is_failed() == old(self).is_failed(),
            final(self).pending() == received(
                old(self).pending(),
                old(self).at_eof() || old(self).is_failed(),
                chunk@,
            ),
            final(self).at_eof() == (old(self).at_eof() || (!old(self).is_failed() && chunk@.len()
                == 0)),
    {
        if self.eof || self.failed {
            return ;
        }
        if chunk.len() == 0 {
            self.eof = true;
            assert(self.buffer@ + chunk@ =~= self.buffer@);
        } else {
            let ghost before = self.buffer@;
            self.buffer.extend_from_slice(chunk);
            assert(self.buffer@ =~= before + chunk@);
            assert(self.buffer@.subrange(0, self.next_index as int) =~= before.subrange(
                0,
                self.next_index as int,
            ));
        }
    }

    /// Takes in what a source made of a read: bytes or the end of the stream
    /// as [`ByteLines::accept_read`] does, a failure as
    /// [`ByteLines::accept_failure`] does. Where the source has nothing and
    /// never will, the reader stays as it is: it has not reached the end of
    /// the stream and never does.
    pub fn accept(&mut self, delivery: Delivery)
        requires
            old(self).wf(),
        ensures
            final(self).wf(),
            final(self).cursor() == old(self).cursor(),
            match delivery@ {
                DeliveryView::Chunk(bytes) => {
                    &&& final(self).pending() == received(
                        old(self).pending(),
                        old(self).at_eof() || old(self).is_failed(),
                        bytes,
                    )
                    &&& final(self).at_eof() == (old(self).at_eof() || (!old(self).is_failed()
                        && bytes.len() == 0))
                    &&& final(self).is_failed() == old(self).is_failed()
                },
                DeliveryView::Failure => {
                    &&& final(self).pending() == old(self).pending()
                    &&& final(self).at_eof() == old(self).at_eof()
                    &&& final(self).is_failed()
                },
                DeliveryView::Nothing => {
                    &&& final(self).pending() == old(self).pending()
                    &&& final(self).at_eof() == old(self).at_eof()
                    &&& final(self).is_failed() == old(self).is_failed()
                },
            },
    {
        match delivery {
            Delivery::Chunk(bytes) => self.accept_read(bytes.as_slice()),
            Delivery::Failure => self.accept_failure(),
            Delivery::Nothing => {},
        }
    }

    /// Records that a read from the source has failed. From here on
    /// [`ByteLines::next_line`] answers [`NextLine::Never`].
    pub fn accept_failure(&mut self)
        ensures
            final(self).is_failed(),
            final(self).wf() == old(self).wf(),
            final(self).pending() == old(self).pending(),
            final(self).cursor() == old(self).cursor(),
            final(self).at_eof() == old(self).at_eof(),
    {
        self.failed = true;
    }

    /// One step towards the next record.
    ///
    /// Hands out a record where the buffer holds one. Otherwise asks for one
    /// read of up to [`READ_BUFFER_SIZE`] bytes, unless the stream has ended
    /// or a read has failed: then nothing will ever come.
    pub fn next_line(&mut self) -> (next: NextLine)
        requires
            old(self).wf(),
        ensures
            final(self).wf(),
            final(self).at_eof() == old(self).at_eof(),
            final(self).is_failed() == old(self).is_failed(),
            old(self).is_failed() ==> next == NextLine::Never && final(self).pending() == old(
                self,
            ).pending() && final(self).cursor() == old(self).cursor(),
            !old(self).is_failed() ==> final(self).cursor() == if next is Read {
                old(self).pending().len()
            } else {
                0
            },
            !old(self).is_failed() ==> final(self).pending() == retained(
                old(self).pending(),
                old(self).at_eof(),
            ) && match emitted(old(self).pending(), old(self).at_eof()) {
                Some(l) => next matches NextLine::Line(v) && v@ == l,
                None => next == if old(self).at_eof() {
                    NextLine::Never
                } else {
                    NextLine::Read(READ_BUFFER_SIZE)
                },
            },
    {
        if self.failed {
            return NextLine::Never;
        }
        match self.get_line() {
            Some(line) => NextLine::Line(line),
            None => if self.eof {
                NextLine::Never
            } else {
                NextLine::Read(READ_BUFFER_SIZE)
            },
        }
    }
}

} // verus!
