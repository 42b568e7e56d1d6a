//! Finding the end of a header line.
//!
//! A header line ends with a terminator that must come within the first
//! `MAX_PARAMS_SIZE` bytes. `LineScan` takes the bytes one at a time, so
//! that a caller reading from a transport can stop at the terminator;
//! `read_line` runs it over a buffer.

use vstd::prelude::*;
use crate::bytes::{first_index_of, lemma_first_index_of_is, MAX_PARAMS_SIZE, TERMINATOR};
use crate::error::{Error, ParseError};

verus! {

/// Where the line at the start of `stream` ends: the number of bytes before
/// its terminator. The stream ending before a terminator is `EOF`;
/// `MAX_PARAMS_SIZE` bytes without a terminator are a general parse error.
pub open spec fn line_end(stream: Seq<u8>) -> Result<nat, Error> {
    let end = first_index_of(stream, TERMINATOR);
    if end < MAX_PARAMS_SIZE && end < stream.len() {
        Ok(end)
    } else if stream.len() < MAX_PARAMS_SIZE {
        Err(Error::EOF)
    } else {
        Err(Error::ParseError(ParseError::General))
    }
}

/// How many bytes of `stream` the search for the end of a line takes up:
/// the line and its terminator, or what was looked at in vain.
pub open spec fn line_used(stream: Seq<u8>) -> nat {
    match line_end(stream) {
        Ok(end) => end + 1,
        Err(_) => if stream.len() < MAX_PARAMS_SIZE {
            stream.len()
        } else {
            MAX_PARAMS_SIZE as nat
        },
    }
}

/// What to do after a byte was handed to a `LineScan`.
#[derive(Debug)]
pub enum ScanStep {
    /// The line goes on: hand over the next byte.
    More,
    /// The terminator was seen: the line is complete.
    Done,
    /// There is no line to be had.
    Failed(Error),
}

/// The decision taken on `event` after the bytes `collected`. The event is
/// the next byte of the stream, or `None` where the stream has ended.
pub open spec fn scan_step(collected: Seq<u8>, event: Option<u8>) -> ScanStep {
    match event {
        None => ScanStep::Failed(Error::EOF),
        Some(byte) => if collected.len() >= MAX_PARAMS_SIZE {
            ScanStep::Failed(Error::ParseError(ParseError::General))
        } else if byte == TERMINATOR {
            ScanStep::Done
        } else if collected.len() + 1 >= MAX_PARAMS_SIZE {
            ScanStep::Failed(Error::ParseError(ParseError::General))
        } else {
            ScanStep::More
        },
    }
}

/// The bytes collected after `event`: a byte joins them unless it is the
/// terminator or there is no room left.
pub open spec fn collected_after(collected: Seq<u8>, event: Option<u8>) -> Seq<u8> {
    match event {
        None => collected,
        Some(byte) => if collected.len() >= MAX_PARAMS_SIZE || byte == TERMINATOR {
            collected
        } else {
            collected.push(byte)
        },
    }
}

/// The outcome of handing the bytes of `stream` to a scan that has
/// collected `collected`, one by one and `None` once they have run out,
/// until the scan says to stop: the line, or the error.
pub open spec fn scan_run(collected: Seq<u8>, stream: Seq<u8>) -> Result<Seq<u8>, Error>
    decreases stream.len(),
{
    if stream.len() == 0 {
        match scan_step(collected, None) {
            ScanStep::Failed(err) => Err(err),
            _ => Ok(collected),
        }
    } else {
        match scan_step(collected, Some(stream[0])) {
            ScanStep::More => scan_run(
                collected_after(collected, Some(stream[0])),
                stream.drop_first(),
            ),
            ScanStep::Done => Ok(collected),
            ScanStep::Failed(err) => Err(err),
        }
    }
}

/// The line at the start of `stream`, without its terminator.
pub open spec fn first_line(stream: Seq<u8>) -> Result<Seq<u8>, Error> {
    match line_end(stream) {
        Ok(end) => Ok(stream.take(end as int)),
        Err(err) => Err(err),
    }
}

/// A scan that is handed a stream byte by byte finds the first line of the
/// stream, or fails as the search for that line fails.
pub proof fn lemma_scan_run(stream: Seq<u8>)
    ensures
        scan_run(Seq::empty(), stream) == first_line(stream),
{
    lemma_scan_run_from(Seq::empty(), stream);
    assert(Seq::<u8>::empty() + stream =~= stream);
}

/// A scan that has collected the start of a line and is handed the rest of
/// the stream finds the line.
proof fn lemma_scan_run_from(collected: Seq<u8>, stream: Seq<u8>)
    requires
        collected.len() < MAX_PARAMS_SIZE,
        !collected.contains(TERMINATOR),
    ensures
        scan_run(collected, stream) == first_line(collected + stream),
    decreases stream.len(),
{
    let whole = collected + stream;
    let seen = collected.len() as int;
    assert forall|j: int| 0 <= j < seen implies whole[j] != TERMINATOR by {
        assert(whole[j] == collected[j]);
    }
    if stream.len() == 0 {
        lemma_first_index_of_is(whole, TERMINATOR, seen);
    } else if stream[0] == TERMINATOR {
        assert(whole[seen] == stream[0]);
        lemma_first_index_of_is(whole, TERMINATOR, seen);
        assert(whole.take(seen) =~= collected);
    } else if seen + 1 >= MAX_PARAMS_SIZE {
        assert(whole[seen] == stream[0]);
        lemma_unterminated_line(whole);
    } else {
        let longer = collected.push(stream[0]);
        assert(!longer.contains(TERMINATOR)) by {
            if longer.contains(TERMINATOR) {
                let i = choose|i: int| 0 <= i < longer.len() && longer[i] == TERMINATOR;
                if i < seen {
                    assert(collected[i] == TERMINATOR);
                }
            }
        }
        lemma_scan_run_from(longer, stream.drop_first());
        assert(longer + stream.drop_first() =~= whole);
    }
}

/// The scratch buffer that collects one header line, byte by byte.
#[derive(Debug)]
pub struct LineScan {
    buf: Vec<u8>,
}

impl View for LineScan {
    type V = Seq<u8>;

    closed spec fn view(&self) -> Seq<u8> {
        self.buf@
    }
}

impl LineScan {
    /// An empty scratch buffer.
    pub fn new() -> (scan: LineScan)
        ensures
            scan@ == Seq::<u8>::empty(),
    {
        LineScan { buf: Vec::with_capacity(MAX_PARAMS_SIZE) }
    }

    /// Forgets the bytes collected so far, keeping the storage.
    pub fn clear(&mut self)
        ensures
            final(self)@ == Seq::<u8>::empty(),
    {
        self.buf.clear();
    }

    /// Takes the next byte of the stream, or `None` where the stream has
    /// ended, and says how to go on.
    pub fn step(&mut self, event: Option<u8>) -> (action: ScanStep)
        ensures
            action == scan_step(old(self)@, event),
            final(self)@ == collected_after(old(self)@, event),
    {
        match event {
            None => ScanStep::Failed(Error::EOF),
            Some(byte) => {
                if self.buf.len() >= MAX_PARAMS_SIZE {
                    ScanStep::Failed(Error::ParseError(ParseError::General))
                } else if byte == TERMINATOR {
                    ScanStep::Done
                } else {
                    self.buf.push(byte);
                    if self.buf.len() >= MAX_PARAMS_SIZE {
                        ScanStep::Failed(Error::ParseError(ParseError::General))
                    } else {
                        ScanStep::More
                    }
                }
            },
        }
    }

    /// The bytes collected so far. After `ScanStep::Done` they are the line,
    /// without its terminator.
    pub fn line(&self) -> (bytes: &[u8])
        ensures
            bytes@ == self@,
    {
        self.buf.as_slice()
    }
}

/// Reads one header line from `reader`, starting at `*pos`, into `scan`,
/// and moves `*pos` past what was read.
pub(crate) fn read_line(reader: &[u8], pos: &mut usize, scan: &mut LineScan) -> (res: Result<(), Error>)
    requires
        *old(pos) <= reader@.len(),
    ensures
        match line_end(reader@.skip(*old(pos) as int)) {
            Ok(end) => res is Ok && final(scan)@ == reader@.skip(*old(pos) as int).take(end as int),
            Err(err) => res == Err::<(), Error>(err),
        },
        *final(pos) == *old(pos) + line_used(reader@.skip(*old(pos) as int)),
        *final(pos) <= reader@.len(),
{
    let start: usize = *pos;
    let ghost stream = reader@.skip(start as int);
    scan.clear();
    loop
        invariant
            start == *old(pos),
            start <= *pos <= reader@.len(),
            stream == reader@.skip(start as int),
            scan@ == stream.take(*pos - start),
            *pos - start < MAX_PARAMS_SIZE,
            forall|j: int| 0 <= j < *pos - start ==> stream[j] != TERMINATOR,
        decreases reader@.len() - *pos,
    {
        let ghost seen = *pos - start;
        proof {
            if *pos < reader@.len() {
                assert(stream[seen] == reader@[*pos as int]);
            }
        }
        let event: Option<u8> = if *pos < reader.len() {
            Some(reader[*pos])
        } else {
            None
        };
        match scan.step(event) {
            ScanStep::Failed(err) => {
                proof {
                    if event is None {
                        lemma_first_index_of_is(stream, TERMINATOR, seen);
                    } else {
                        lemma_unterminated_line(stream);
                    }
                }
                if event.is_some() {
                    *pos = *pos + 1;
                }
                return Err(err);
            },
            ScanStep::Done => {
                proof {
                    lemma_first_index_of_is(stream, TERMINATOR, seen);
                }
                *pos = *pos + 1;
                return Ok(());
            },
            ScanStep::More => {
                *pos = *pos + 1;
                assert(scan@ =~= stream.take(*pos - start));
            },
        }
    }
}

/// A stream whose first `MAX_PARAMS_SIZE` bytes hold no terminator has no
/// line: looking for one is a general parse error, and takes up just those
/// bytes.
pub proof fn lemma_unterminated_line(stream: Seq<u8>)
    requires
        stream.len() >= MAX_PARAMS_SIZE,
        forall|j: int| 0 <= j < MAX_PARAMS_SIZE ==> stream[j] != TERMINATOR,
    ensures
        line_end(stream) == Err::<nat, Error>(Error::ParseError(ParseError::General)),
        line_used(stream) == MAX_PARAMS_SIZE,
{
    crate::bytes::lemma_first_index_of(stream, TERMINATOR);
    let end = first_index_of(stream, TERMINATOR) as int;
    if end < MAX_PARAMS_SIZE {
        assert(stream[end] == TERMINATOR);
    }
}

} // verus!
