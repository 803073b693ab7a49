//! The record state machine: it is fed the outcome of one line read at a
//! time and answers with the next state and, where the line completes or
//! breaks a record, with what the caller gets.

use vstd::prelude::*;
use vstd::string::*;
use vstd::utf8::*;
use crate::error::{FastqError, Fault, FormatError, FormatFault, IoContext};
use crate::policy::{ErrorPolicy, LineMode, ReaderOptions};
use crate::record::{FastqRecord, RecordView};
use crate::text::{
    first_bytes, header_desc, header_id, leading_bytes, opt_view, split_header, starts_with_char,
    strip_line, strip_terminator,
};

verus! {

/// Where the machine stands within a record.
#[derive(Debug, Clone, Copy, PartialEq, Eq, Structural)]
pub enum Stage {
    /// Between records: blank lines are passed over until a header comes.
    SeekHeader,
    /// Single-line layout: the sequence line is next.
    ReadSeq,
    /// Single-line layout: the separator line is next.
    ReadPlus,
    /// Single-line layout: the quality line is next.
    ReadQual,
    /// Multi-line layout: sequence lines are gathered until the separator.
    AccumulateSeq,
    /// Multi-line layout: quality lines are gathered until they are as long
    /// as the sequence.
    AccumulateQual,
    /// After a skipped fault: lines are passed over until one starts with
    /// `@`, which is taken as the header of the next record.
    Resync,
}

/// The outcome of one line read on the underlying stream.
#[derive(Debug)]
pub enum LineRead {
    /// The stream is at its end.
    Eof,
    /// A line of `raw_len` bytes; `text` still holds its terminator.
    Data { raw_len: usize, text: String },
    /// The stream failed.
    Fault(std::io::Error),
}

/// Mathematical content of a [`LineRead`].
pub enum LineReadView {
    Eof,
    Data { raw_len: usize, text: Seq<char> },
    Fault(std::io::Error),
}

impl View for LineRead {
    type V = LineReadView;

    open spec fn view(&self) -> LineReadView {
        match *self {
            LineRead::Eof => LineReadView::Eof,
            LineRead::Data { raw_len, text } => LineReadView::Data { raw_len, text: text@ },
            LineRead::Fault(e) => LineReadView::Fault(e),
        }
    }
}

/// What one pull on the parser gives.
#[derive(Debug)]
pub enum Outcome {
    /// A complete record.
    Record(FastqRecord),
    /// A fault that the lenient policy recovers from; the parser now looks
    /// for the next header.
    Skipped(FastqError),
    /// A fault handed to the caller under the strict policy.
    Failed(FastqError),
    /// The stream ended between records.
    End,
}

/// Mathematical content of an [`Outcome`].
pub enum OutcomeView {
    Record(RecordView),
    Skipped(Fault),
    Failed(Fault),
    End,
}

impl View for Outcome {
    type V = OutcomeView;

    open spec fn view(&self) -> OutcomeView {
        match *self {
            Outcome::Record(r) => OutcomeView::Record(r@),
            Outcome::Skipped(e) => OutcomeView::Skipped(e@),
            Outcome::Failed(e) => OutcomeView::Failed(e@),
            Outcome::End => OutcomeView::End,
        }
    }
}

/// The view of an optional outcome.
pub open spec fn yield_view(o: Option<Outcome>) -> Option<OutcomeView> {
    match o {
        Some(x) => Some(x@),
        None => None,
    }
}

/// A record with nothing in it.
pub open spec fn empty_record() -> RecordView {
    RecordView { id: Seq::empty(), desc: None, seq: Seq::empty(), qual: Seq::empty() }
}

/// Mathematical state of the parser.
pub struct ParserView {
    pub opts: ReaderOptions,
    pub pos: IoContext,
    pub stage: Stage,
    pub partial: RecordView,
}

/// A state together with what the step that led to it gives the caller;
/// `None` where the machine needs another line.
pub type Transition = (ParserView, Option<OutcomeView>);

/// The position after a line of `raw_len` bytes: one more line, and
/// `raw_len` more bytes, held at the largest value once it is reached.
pub open spec fn advance_pos(pos: IoContext, raw_len: usize) -> IoContext {
    IoContext {
        line_num: (pos.line_num + 1) as u64,
        byte_pos: if pos.byte_pos + raw_len > u64::MAX {
            u64::MAX
        } else {
            (pos.byte_pos + raw_len) as u64
        },
    }
}

/// `line` without a leading byte-order mark.
pub open spec fn without_bom(line: Seq<char>) -> Seq<char> {
    if line.len() > 0 && line[0] == '\u{FEFF}' {
        line.skip(1)
    } else {
        line
    }
}

impl ParserView {
    /// The state of a parser that has read nothing.
    pub open spec fn start(opts: ReaderOptions) -> ParserView {
        ParserView {
            opts,
            pos: IoContext { byte_pos: 0, line_num: 0 },
            stage: Stage::SeekHeader,
            partial: empty_record(),
        }
    }

    /// The states that the machine can be in.
    pub open spec fn wf(self) -> bool {
        match self.stage {
            Stage::SeekHeader | Stage::Resync => self.partial == empty_record(),
            Stage::ReadSeq => {
                &&& self.opts.line_mode == LineMode::Single
                &&& self.partial.seq.len() == 0
                &&& self.partial.qual.len() == 0
            },
            Stage::ReadPlus | Stage::ReadQual => {
                &&& self.opts.line_mode == LineMode::Single
                &&& self.partial.seq.len() > 0
                &&& self.partial.qual.len() == 0
            },
            Stage::AccumulateSeq => {
                &&& self.opts.line_mode == LineMode::Multi
                &&& self.partial.qual.len() == 0
            },
            Stage::AccumulateQual => {
                &&& self.opts.line_mode == LineMode::Multi
                &&& self.partial.seq.len() > 0
                &&& self.partial.qual.len() < self.partial.seq.len()
            },
        }
    }

    /// The state with the open record dropped.
    pub open spec fn reset(self, stage: Stage) -> ParserView {
        ParserView { stage, partial: empty_record(), ..self }
    }

    /// A fault is met: under the lenient policy it is skipped and the machine
    /// looks for the next header; under the strict one it goes to the caller
    /// and the machine starts afresh where the stream stands.
    pub open spec fn raise(self, fault: Fault) -> Transition {
        if self.opts.error_policy == ErrorPolicy::Skip {
            (self.reset(Stage::Resync), Some(OutcomeView::Skipped(fault)))
        } else {
            (self.reset(Stage::SeekHeader), Some(OutcomeView::Failed(fault)))
        }
    }

    /// A format fault at the current position.
    pub open spec fn reject(self, source: FormatFault) -> Transition {
        self.raise(Fault::Format { source, ctx: self.pos })
    }

    /// The open record is complete.
    pub open spec fn emit(self) -> Transition {
        (self.reset(Stage::SeekHeader), Some(OutcomeView::Record(self.partial)))
    }

    /// A non-empty line stands where a record should start.
    pub open spec fn on_header(self, h: Seq<char>) -> Transition {
        if h[0] == '@' {
            (
                ParserView {
                    stage: if self.opts.line_mode == LineMode::Single {
                        Stage::ReadSeq
                    } else {
                        Stage::AccumulateSeq
                    },
                    partial: RecordView {
                        id: header_id(h),
                        desc: header_desc(h),
                        seq: Seq::empty(),
                        qual: Seq::empty(),
                    },
                    ..self
                },
                None,
            )
        } else if h[0] == '>' && self.opts.fastq_only {
            self.reject(FormatFault::FastaHeaderDetected)
        } else {
            self.reject(FormatFault::MissingHeader { found: h[0], first_bytes: leading_bytes(h) })
        }
    }

    /// The open record with its quality set to `qual`: complete if the
    /// lengths agree.
    pub open spec fn close(self, qual: Seq<u8>) -> Transition {
        if qual.len() != self.partial.seq.len() {
            self.reject(
                FormatFault::LengthMismatch {
                    seq_len: self.partial.seq.len() as usize,
                    qual_len: qual.len() as usize,
                },
            )
        } else {
            (ParserView { partial: RecordView { qual, ..self.partial }, ..self }).emit()
        }
    }

    /// A line, without its terminator, arrives.
    pub open spec fn on_line(self, line: Seq<char>) -> Transition {
        match self.stage {
            Stage::SeekHeader => {
                let h = without_bom(line);
                if h.len() == 0 {
                    (self, None)
                } else {
                    self.on_header(h)
                }
            },
            Stage::ReadSeq => {
                if line.len() == 0 {
                    self.reject(FormatFault::EmptySequence)
                } else {
                    (
                        ParserView {
                            stage: Stage::ReadPlus,
                            partial: RecordView { seq: encode_utf8(line), ..self.partial },
                            ..self
                        },
                        None,
                    )
                }
            },
            Stage::ReadPlus => {
                if line.len() > 0 && line[0] == '+' {
                    (ParserView { stage: Stage::ReadQual, ..self }, None)
                } else {
                    self.reject(FormatFault::MissingPlus)
                }
            },
            Stage::ReadQual => self.close(encode_utf8(line)),
            Stage::AccumulateSeq => {
                if line.len() > 0 && line[0] == '+' {
                    if self.partial.seq.len() == 0 {
                        self.reject(FormatFault::EmptySequence)
                    } else {
                        (ParserView { stage: Stage::AccumulateQual, ..self }, None)
                    }
                } else {
                    (
                        ParserView {
                            partial: RecordView {
                                seq: self.partial.seq + encode_utf8(line),
                                ..self.partial
                            },
                            ..self
                        },
                        None,
                    )
                }
            },
            Stage::AccumulateQual => {
                let qual = self.partial.qual + encode_utf8(line);
                if qual.len() < self.partial.seq.len() {
                    (ParserView { partial: RecordView { qual, ..self.partial }, ..self }, None)
                } else {
                    self.close(qual)
                }
            },
            Stage::Resync => {
                if line.len() > 0 && line[0] == '@' {
                    self.on_header(line)
                } else {
                    (self, None)
                }
            },
        }
    }

    /// The stream has ended: cleanly between records, inside a record as a
    /// fault.
    pub open spec fn on_eof(self) -> Transition {
        match self.stage {
            Stage::SeekHeader => (self, Some(OutcomeView::End)),
            Stage::Resync => (self.reset(Stage::SeekHeader), Some(OutcomeView::End)),
            _ => self.reject(FormatFault::UnexpectedEof),
        }
    }

    /// The stream has failed: while looking for the next header this ends the
    /// reading, anywhere else it is a fault.
    pub open spec fn on_fault(self, source: std::io::Error) -> Transition {
        if self.stage == Stage::Resync {
            (self.reset(Stage::SeekHeader), Some(OutcomeView::End))
        } else {
            self.raise(Fault::Io { source, ctx: self.pos })
        }
    }

    /// One step of the machine. A line counts into the position, loses its
    /// terminator and is handled by the stage the machine is in. Once the
    /// line counter has reached its largest value the stream counts as
    /// ended.
    pub open spec fn step(self, input: LineReadView) -> Transition {
        match input {
            LineReadView::Eof => self.on_eof(),
            LineReadView::Fault(e) => self.on_fault(e),
            LineReadView::Data { raw_len, text } => {
                if self.pos.line_num == u64::MAX {
                    self.on_eof()
                } else {
                    (ParserView { pos: advance_pos(self.pos, raw_len), ..self }).on_line(
                        strip_terminator(text),
                    )
                }
            },
        }
    }
}

/// The machine stays within its states, and every record it gives is well
/// formed: a non-empty sequence with one quality byte for each of its bytes.
pub proof fn lemma_step_wf(s: ParserView, input: LineReadView)
    requires
        s.wf(),
    ensures
        s.step(input).0.wf(),
        s.step(input).1 matches Some(OutcomeView::Record(rec)) ==> rec.well_formed(),
{
}

/// The settings never change and the position never falls. Where the
/// machine asks for another line, it has counted one. A fault is skipped
/// only under the lenient policy, by a machine that was not looking for a
/// header before and is now; it is handed out only under the strict one.
pub proof fn lemma_step_progress(s: ParserView, input: LineReadView)
    ensures
        s.step(input).0.opts == s.opts,
        s.step(input).0.pos.line_num >= s.pos.line_num,
        s.step(input).0.pos.byte_pos >= s.pos.byte_pos,
        s.step(input).1 is None ==> s.step(input).0.pos.line_num == s.pos.line_num + 1,
        s.step(input).1 matches Some(OutcomeView::Skipped(_)) ==> s.opts.error_policy
            == ErrorPolicy::Skip && s.stage != Stage::Resync && s.step(input).0.stage
            == Stage::Resync,
        s.step(input).1 matches Some(OutcomeView::Failed(_)) ==> s.opts.error_policy
            == ErrorPolicy::Return,
{
}

/// The record state machine.
pub struct RecordParser {
    opts: ReaderOptions,
    pos: IoContext,
    stage: Stage,
    partial: FastqRecord,
}

impl View for RecordParser {
    type V = ParserView;

    closed spec fn view(&self) -> ParserView {
        ParserView { opts: self.opts, pos: self.pos, stage: self.stage, partial: self.partial@ }
    }
}

/// A record with nothing in it.
fn blank_record() -> (r: FastqRecord)
    ensures
        r@ == empty_record(),
{
    FastqRecord { id: String::new(), desc: None, seq: Vec::new(), qual: Vec::new() }
}

impl RecordParser {
    /// A parser that has read nothing.
    pub fn new(opts: ReaderOptions) -> (p: Self)
        ensures
            p@ == ParserView::start(opts),
            p@.wf(),
    {
        RecordParser {
            opts,
            pos: IoContext { byte_pos: 0, line_num: 0 },
            stage: Stage::SeekHeader,
            partial: blank_record(),
        }
    }

    /// The settings the parser was made with.
    pub fn options(&self) -> (o: ReaderOptions)
        ensures
            o == self@.opts,
    {
        self.opts
    }

    /// Bytes and lines consumed so far.
    pub fn position(&self) -> (c: IoContext)
        ensures
            c == self@.pos,
    {
        self.pos
    }

    /// Where the machine stands within a record.
    pub fn stage(&self) -> (s: Stage)
        ensures
            s == self@.stage,
    {
        self.stage
    }

    fn reset(&mut self, stage: Stage) -> (rec: FastqRecord)
        ensures
            final(self)@ == old(self)@.reset(stage),
            rec@ == old(self)@.partial,
    {
        let mut rec = blank_record();
        std::mem::swap(&mut self.partial, &mut rec);
        self.stage = stage;
        rec
    }

    fn raise(&mut self, err: FastqError) -> (r: Option<Outcome>)
        ensures
            (final(self)@, yield_view(r)) == old(self)@.raise(err@),
    {
        match self.opts.error_policy {
            ErrorPolicy::Skip => {
                let _ = self.reset(Stage::Resync);
                Some(Outcome::Skipped(err))
            },
            ErrorPolicy::Return => {
                let _ = self.reset(Stage::SeekHeader);
                Some(Outcome::Failed(err))
            },
        }
    }

    fn reject(&mut self, source: FormatError) -> (r: Option<Outcome>)
        ensures
            (final(self)@, yield_view(r)) == old(self)@.reject(source@),
    {
        let err = FastqError::fmt_err(source, self.pos);
        self.raise(err)
    }

    fn on_header(&mut self, h: &str) -> (r: Option<Outcome>)
        requires
            h@.len() > 0,
        ensures
            (final(self)@, yield_view(r)) == old(self)@.on_header(h@),
    {
        let first = h.get_char(0);
        if first == '@' {
            let (id, desc) = split_header(h);
            self.partial = FastqRecord { id, desc, seq: Vec::new(), qual: Vec::new() };
            self.stage = match self.opts.line_mode {
                LineMode::Single => Stage::ReadSeq,
                LineMode::Multi => Stage::AccumulateSeq,
            };
            None
        } else if first == '>' && self.opts.fastq_only {
            self.reject(FormatError::FastaHeaderDetected)
        } else {
            let head = first_bytes(h);
            self.reject(FormatError::MissingHeader { found: first, first_bytes: head })
        }
    }

    fn close(&mut self, qual: Vec<u8>) -> (r: Option<Outcome>)
        ensures
            (final(self)@, yield_view(r)) == old(self)@.close(qual@),
    {
        if qual.len() != self.partial.seq.len() {
            self.reject(
                FormatError::LengthMismatch {
                    seq_len: self.partial.seq.len(),
                    qual_len: qual.len(),
                },
            )
        } else {
            self.partial.qual = qual;
            let rec = self.reset(Stage::SeekHeader);
            Some(Outcome::Record(rec))
        }
    }

    fn on_line(&mut self, line: String) -> (r: Option<Outcome>)
        ensures
            (final(self)@, yield_view(r)) == old(self)@.on_line(line@),
    {
        let text = line.as_str();
        match self.stage {
            Stage::SeekHeader => {
                if starts_with_char(text, '\u{FEFF}') {
                    let n = text.unicode_len();
                    let h = text.substring_char(1, n);
                    assert(h@ =~= without_bom(line@));
                    if h.is_empty() {
                        None
                    } else {
                        self.on_header(h)
                    }
                } else if text.is_empty() {
                    None
                } else {
                    self.on_header(text)
                }
            },
            Stage::ReadSeq => {
                if text.is_empty() {
                    self.reject(FormatError::EmptySequence)
                } else {
                    self.partial.seq = text.as_bytes_vec();
                    self.stage = Stage::ReadPlus;
                    None
                }
            },
            Stage::ReadPlus => {
                if starts_with_char(text, '+') {
                    self.stage = Stage::ReadQual;
                    None
                } else {
                    self.reject(FormatError::MissingPlus)
                }
            },
            Stage::ReadQual => {
                let qual = text.as_bytes_vec();
                self.close(qual)
            },
            Stage::AccumulateSeq => {
                if starts_with_char(text, '+') {
                    if self.partial.seq.len() == 0 {
                        self.reject(FormatError::EmptySequence)
                    } else {
                        self.stage = Stage::AccumulateQual;
                        None
                    }
                } else {
                    let mut bytes = text.as_bytes_vec();
                    self.partial.seq.append(&mut bytes);
                    None
                }
            },
            Stage::AccumulateQual => {
                let mut bytes = text.as_bytes_vec();
                let mut qual: Vec<u8> = Vec::new();
                std::mem::swap(&mut self.partial.qual, &mut qual);
                qual.append(&mut bytes);
                if qual.len() < self.partial.seq.len() {
                    self.partial.qual = qual;
                    None
                } else {
                    self.close(qual)
                }
            },
            Stage::Resync => {
                if starts_with_char(text, '@') {
                    self.on_header(text)
                } else {
                    None
                }
            },
        }
    }

    fn on_eof(&mut self) -> (r: Option<Outcome>)
        ensures
            (final(self)@, yield_view(r)) == old(self)@.on_eof(),
    {
        match self.stage {
            Stage::SeekHeader => Some(Outcome::End),
            Stage::Resync => {
                let _ = self.reset(Stage::SeekHeader);
                Some(Outcome::End)
            },
            _ => self.reject(FormatError::UnexpectedEof),
        }
    }

    fn on_fault(&mut self, source: std::io::Error) -> (r: Option<Outcome>)
        ensures
            (final(self)@, yield_view(r)) == old(self)@.on_fault(source),
    {
        match self.stage {
            Stage::Resync => {
                let _ = self.reset(Stage::SeekHeader);
                Some(Outcome::End)
            },
            _ => {
                let err = FastqError::io_err(source, self.pos);
                self.raise(err)
            },
        }
    }

    /// Feeds the outcome of one line read to the machine. `None` asks for
    /// the next line; anything else is what the caller gets. A line read
    /// after the line counter has reached its largest value counts as the
    /// end of the stream.
    pub fn feed(&mut self, input: LineRead) -> (r: Option<Outcome>)
        ensures
            (final(self)@, yield_view(r)) == old(self)@.step(input@),
            old(self)@.wf() ==> final(self)@.wf(),
            old(self)@.wf() ==> (r matches Some(Outcome::Record(rec)) ==> rec@.well_formed()),
    {
        proof {
            if self@.wf() {
                lemma_step_wf(self@, input@);
            }
        }
        match input {
            LineRead::Eof => self.on_eof(),
            LineRead::Fault(e) => self.on_fault(e),
            LineRead::Data { raw_len, text } => {
                if self.pos.line_num == u64::MAX {
                    self.on_eof()
                } else {
                    let n: u64 = raw_len as u64;
                    let bytes: u64 = if n > u64::MAX - self.pos.byte_pos {
                        u64::MAX
                    } else {
                        self.pos.byte_pos + n
                    };
                    self.pos = IoContext { byte_pos: bytes, line_num: self.pos.line_num + 1 };
                    let mut line = text;
                    strip_line(&mut line);
                    self.on_line(line)
                }
            },
        }
    }
}

} // verus!
