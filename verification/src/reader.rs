//! The blocking reader: it pulls lines from a buffered byte stream and feeds
//! them to the record state machine.

use vstd::prelude::*;
use crate::error::{FastqError, Fault, IoContext};
use crate::parser::{
    lemma_step_progress, lemma_step_wf, LineRead, LineReadView, Outcome, OutcomeView, ParserView,
    RecordParser, Stage,
};
use crate::policy::{ErrorPolicy, ReaderOptions};
use crate::record::{FastqRecord, RecordView};

verus! {

/// `std::path::PathBuf`: a filesystem path, carried through unchanged.
#[verifier::external_type_specification]
#[verifier::external_body]
pub struct ExPathBuf(std::path::PathBuf);

/// `std::io::BufReader`: a buffer in front of a byte stream.
#[verifier::external_type_specification]
#[verifier::external_body]
#[verifier::reject_recursive_types(R)]
pub struct ExBufReader<R: ?Sized>(std::io::BufReader<R>);

/// `flate2::read::MultiGzDecoder`: a byte stream that gives the decoded
/// content of every member of a gzip stream, one after the other.
#[verifier::external_type_specification]
#[verifier::external_body]
#[verifier::reject_recursive_types(R)]
pub struct ExMultiGzDecoder<R>(flate2::read::MultiGzDecoder<R>);

/// Where a reader's bytes come from.
#[derive(Debug)]
pub enum Source {
    /// A file at this path.
    Path(std::path::PathBuf),
    /// A stream handed over by the caller.
    Reader,
}

/// What the machine makes of a series of line reads: the state it ends in
/// and what it gave on the way, in order.
pub open spec fn run(s: ParserView, inputs: Seq<LineReadView>) -> (ParserView, Seq<OutcomeView>)
    decreases inputs.len(),
{
    if inputs.len() == 0 {
        (s, Seq::empty())
    } else {
        let before = run(s, inputs.drop_last());
        let last = before.0.step(inputs.last());
        (
            last.0,
            match last.1 {
                Some(o) => before.1.push(o),
                None => before.1,
            },
        )
    }
}

/// Whether every outcome in `outs` is a skipped fault.
pub open spec fn all_skipped(outs: Seq<OutcomeView>) -> bool {
    forall|i: int| 0 <= i < outs.len() ==> #[trigger] outs[i] is Skipped
}

/// What the caller of an iteration gets for an outcome: a record, a fault,
/// or nothing at the clean end.
pub open spec fn delivered(o: OutcomeView) -> Option<Result<RecordView, Fault>> {
    match o {
        OutcomeView::Record(r) => Some(Ok(r)),
        OutcomeView::Failed(e) => Some(Err(e)),
        _ => None,
    }
}

/// One pull: started in `s` and fed the line reads `fed`, the machine asked
/// for more after each of them but the last, and on the last it gave `out`
/// and came to `t`.
pub open spec fn pulls(s: ParserView, fed: Seq<LineReadView>, t: ParserView, out: OutcomeView) -> bool {
    &&& fed.len() > 0
    &&& run(s, fed.drop_last()).1.len() == 0
    &&& run(s, fed.drop_last()).0.step(fed.last()) == (t, Some(out))
}

/// One iteration: started in `s` and fed the line reads `fed`, the machine
/// gave nothing but skipped faults before the last of them, and on the last
/// it gave an outcome other than a skipped fault, which makes `item`, and
/// came to `t`.
pub open spec fn delivers(
    s: ParserView,
    fed: Seq<LineReadView>,
    t: ParserView,
    item: Option<Result<RecordView, Fault>>,
) -> bool {
    &&& fed.len() > 0
    &&& all_skipped(run(s, fed.drop_last()).1)
    &&& run(s, fed.drop_last()).0.step(fed.last()).0 == t
    &&& match run(s, fed.drop_last()).0.step(fed.last()).1 {
        Some(o) => !(o is Skipped) && item == delivered(o),
        None => false,
    }
}

/// The view of what an iteration returns.
pub open spec fn item_view(r: Option<Result<FastqRecord, FastqError>>) -> Option<
    Result<RecordView, Fault>,
> {
    match r {
        Some(Ok(rec)) => Some(Ok(rec@)),
        Some(Err(e)) => Some(Err(e@)),
        None => None,
    }
}

/// `BufRead::read_line`: reads up to and including the next line feed and
/// appends what it read to `buf`. Nothing is claimed of what comes back: it
/// depends on the stream.
#[verifier::external_body]
fn read_raw_line<R: std::io::BufRead>(rdr: &mut R, buf: &mut String) -> (r: Result<
    usize,
    std::io::Error,
>) {
    rdr.read_line(buf)
}

/// `BufReader::with_capacity`: `inner` behind a buffer of `capacity` bytes.
/// Nothing is claimed of the stream that comes back.
#[verifier::external_body]
fn buffered<S: std::io::Read>(capacity: usize, inner: S) -> (b: std::io::BufReader<S>) {
    std::io::BufReader::with_capacity(capacity, inner)
}

/// `MultiGzDecoder::new`: a decoder over the gzip stream `raw`. It reads the
/// first header at once and keeps a failure for the first read. Nothing is
/// claimed of the stream that comes back.
#[verifier::external_body]
fn gzip_decoder<S: std::io::Read>(raw: S) -> (d: flate2::read::MultiGzDecoder<S>) {
    flate2::read::MultiGzDecoder::new(raw)
}

/// Size in bytes of the buffer in front of a file or a gzip decoder.
pub const STREAM_BUFFER: usize = 262144;

/// Size in bytes of the buffer in front of a memory mapping.
pub const MAPPED_BUFFER: usize = 524288;

/// The outcome of a line read as the machine takes it: no byte read is the
/// end of the stream.
pub fn classify_read(raw: Result<usize, std::io::Error>, text: String) -> (r: LineRead)
    ensures
        r@ == match raw {
            Ok(n) => if n == 0 {
                LineReadView::Eof
            } else {
                LineReadView::Data { raw_len: n, text: text@ }
            },
            Err(e) => LineReadView::Fault(e),
        },
{
    match raw {
        Ok(n) => if n == 0 {
            LineRead::Eof
        } else {
            LineRead::Data { raw_len: n, text }
        },
        Err(e) => LineRead::Fault(e),
    }
}

/// Streaming reader of FASTQ records over a buffered byte stream.
pub struct FastqReader<R> {
    src: Source,
    rdr: R,
    parser: RecordParser,
    seen: Ghost<Seq<LineReadView>>,
}

impl<R> FastqReader<R> {
    /// The state of the record machine.
    pub closed spec fn state(&self) -> ParserView {
        self.parser@
    }

    /// Where the reader's bytes are said to come from.
    pub closed spec fn origin(&self) -> Source {
        self.src
    }

    /// Every line read made so far, in order.
    pub closed spec fn history(&self) -> Seq<LineReadView> {
        self.seen@
    }

    /// The line reads made between an earlier state `then` of the reader and
    /// this one.
    pub open spec fn reads_since(&self, then: &Self) -> Seq<LineReadView> {
        self.history().skip(then.history().len() as int)
    }

    /// Whether every line read made by `then` is among this reader's, at the
    /// same place.
    pub open spec fn extends(&self, then: &Self) -> bool {
        then.history().is_prefix_of(self.history())
    }
}

impl<R: std::io::BufRead> FastqReader<R> {
    /// A reader over `reader`, whose bytes are said to come from `src`.
    pub fn with_source(src: Source, reader: R, opts: ReaderOptions) -> (fq: Self)
        ensures
            fq.origin() == src,
            fq.state() == ParserView::start(opts),
            fq.state().wf(),
            fq.history() == Seq::<LineReadView>::empty(),
    {
        FastqReader { src, rdr: reader, parser: RecordParser::new(opts), seen: Ghost(Seq::empty()) }
    }

    /// A reader over any buffered byte stream, taken as plain text.
    pub fn from_bufread(reader: R, opts: ReaderOptions) -> (fq: Self)
        ensures
            fq.origin() == Source::Reader,
            fq.state() == ParserView::start(opts),
            fq.state().wf(),
            fq.history() == Seq::<LineReadView>::empty(),
    {
        Self::with_source(Source::Reader, reader, opts)
    }

    /// Where the reader's bytes come from.
    pub fn source(&self) -> (s: &Source)
        ensures
            *s == self.origin(),
    {
        &self.src
    }

    /// The settings the reader was made with.
    pub fn options(&self) -> (o: ReaderOptions)
        ensures
            o == self.state().opts,
    {
        self.parser.options()
    }

    /// Bytes and lines consumed so far.
    pub fn ctx(&self) -> (c: IoContext)
        ensures
            c == self.state().pos,
    {
        self.parser.position()
    }

    /// Reads one line from the stream.
    fn read_line(&mut self) -> (input: LineRead)
        ensures
            final(self).origin() == old(self).origin(),
            final(self).state() == old(self).state(),
            final(self).history() == old(self).history().push(input@),
    {
        let mut buf = String::new();
        let raw = read_raw_line(&mut self.rdr, &mut buf);
        let input = classify_read(raw, buf);
        self.seen = Ghost(self.seen@.push(input@));
        input
    }

    /// Reads lines until the machine gives an outcome, and returns it.
    pub fn advance(&mut self) -> (out: Outcome)
        ensures
            final(self).extends(old(self)),
            pulls(old(self).state(), final(self).reads_since(old(self)), final(self).state(), out@),
            final(self).origin() == old(self).origin(),
            final(self).state().opts == old(self).state().opts,
            final(self).state().pos.line_num >= old(self).state().pos.line_num,
            final(self).state().pos.byte_pos >= old(self).state().pos.byte_pos,
            old(self).state().wf() ==> final(self).state().wf(),
            old(self).state().wf() ==> (out matches Outcome::Record(rec) ==> rec@.well_formed()),
    {
        let ghost start = self.state();
        let ghost before = self.history();
        loop
            invariant
                start == old(self).state(),
                before == old(self).history(),
                before.is_prefix_of(self.history()),
                run(start, self.history().skip(before.len() as int)) == (
                    self.state(),
                    Seq::<OutcomeView>::empty(),
                ),
                self.origin() == old(self).origin(),
                self.state().opts == start.opts,
                self.state().pos.line_num >= start.pos.line_num,
                self.state().pos.byte_pos >= start.pos.byte_pos,
                start.wf() ==> self.state().wf(),
            decreases u64::MAX - self.state().pos.line_num,
        {
            let ghost fed = self.history().skip(before.len() as int);
            let ghost mid = self.state();
            let input = self.read_line();
            proof {
                lemma_step_progress(mid, input@);
                lemma_step_wf_if(mid, input@);
                assert(self.history().skip(before.len() as int) =~= fed.push(input@));
                assert(fed.push(input@).drop_last() =~= fed);
            }
            match self.parser.feed(input) {
                Some(out) => {
                    return out;
                },
                None => {},
            }
        }
    }

    /// The next record or fault; `None` at the clean end of the stream.
    /// Faults that the lenient policy recovers from are passed over.
    pub fn next(&mut self) -> (r: Option<Result<FastqRecord, FastqError>>)
        ensures
            final(self).extends(old(self)),
            delivers(
                old(self).state(),
                final(self).reads_since(old(self)),
                final(self).state(),
                item_view(r),
            ),
            final(self).origin() == old(self).origin(),
            final(self).state().opts == old(self).state().opts,
            final(self).state().pos.line_num >= old(self).state().pos.line_num,
            final(self).state().pos.byte_pos >= old(self).state().pos.byte_pos,
            old(self).state().opts.error_policy == ErrorPolicy::Skip ==> !(r matches Some(Err(_))),
            old(self).state().wf() ==> final(self).state().wf(),
            old(self).state().wf() ==> (r matches Some(Ok(rec)) ==> rec@.well_formed()),
    {
        let ghost start = self.state();
        let ghost before = self.history();
        loop
            invariant
                start == old(self).state(),
                before == old(self).history(),
                before.is_prefix_of(self.history()),
                run(start, self.history().skip(before.len() as int)).0 == self.state(),
                all_skipped(run(start, self.history().skip(before.len() as int)).1),
                self.origin() == old(self).origin(),
                self.state().opts == start.opts,
                self.state().pos.line_num >= start.pos.line_num,
                self.state().pos.byte_pos >= start.pos.byte_pos,
                start.wf() ==> self.state().wf(),
            decreases
                    u64::MAX - self.state().pos.line_num,
                    (if self.state().stage == Stage::Resync {
                        0int
                    } else {
                        1int
                    }),
        {
            let ghost fed = self.history().skip(before.len() as int);
            let ghost mid = self.state();
            let input = self.read_line();
            proof {
                lemma_step_progress(mid, input@);
                lemma_step_wf_if(mid, input@);
                assert(self.history().skip(before.len() as int) =~= fed.push(input@));
                assert(fed.push(input@).drop_last() =~= fed);
            }
            match self.parser.feed(input) {
                Some(Outcome::Record(rec)) => {
                    return Some(Ok(rec));
                },
                Some(Outcome::Failed(err)) => {
                    return Some(Err(err));
                },
                Some(Outcome::End) => {
                    return None;
                },
                Some(Outcome::Skipped(_)) => {},
                None => {},
            }
        }
    }
}

impl<S: std::io::Read> FastqReader<std::io::BufReader<S>> {
    /// A reader over the plain text of `raw`, behind a buffer of
    /// `STREAM_BUFFER` bytes.
    pub fn from_plain(src: Source, raw: S, opts: ReaderOptions) -> (fq: Self)
        ensures
            fq.origin() == src,
            fq.state() == ParserView::start(opts),
            fq.state().wf(),
            fq.history() == Seq::<LineReadView>::empty(),
    {
        Self::with_source(src, buffered(STREAM_BUFFER, raw), opts)
    }

    /// A reader over the plain text of the memory mapping `raw`, behind a
    /// buffer of `MAPPED_BUFFER` bytes.
    pub fn from_mapped(src: Source, raw: S, opts: ReaderOptions) -> (fq: Self)
        ensures
            fq.origin() == src,
            fq.state() == ParserView::start(opts),
            fq.state().wf(),
            fq.history() == Seq::<LineReadView>::empty(),
    {
        Self::with_source(src, buffered(MAPPED_BUFFER, raw), opts)
    }
}

impl<S: std::io::Read> FastqReader<std::io::BufReader<flate2::read::MultiGzDecoder<S>>> {
    /// A reader over the text that the gzip stream `raw` holds, all members
    /// taken as one stream, behind a buffer of `STREAM_BUFFER` bytes.
    pub fn from_gzip(src: Source, raw: S, opts: ReaderOptions) -> (fq: Self)
        ensures
            fq.origin() == src,
            fq.state() == ParserView::start(opts),
            fq.state().wf(),
            fq.history() == Seq::<LineReadView>::empty(),
    {
        Self::with_source(src, buffered(STREAM_BUFFER, gzip_decoder(raw)), opts)
    }
}

/// `lemma_step_wf` where the state may or may not be one of the machine's.
proof fn lemma_step_wf_if(s: ParserView, input: LineReadView)
    ensures
        s.wf() ==> s.step(input).0.wf(),
        s.wf() ==> (s.step(input).1 matches Some(OutcomeView::Record(rec)) ==> rec.well_formed()),
{
    if s.wf() {
        lemma_step_wf(s, input);
    }
}

} // verus!
