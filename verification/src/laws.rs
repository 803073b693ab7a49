//! What holds of the machine over whole streams.

use vstd::prelude::*;
use vstd::utf8::*;
use crate::error::{Fault, FormatFault, IoContext};
use crate::parser::{
    advance_pos, empty_record, without_bom, LineReadView, OutcomeView, ParserView, Stage,
};
use crate::policy::LineMode;
use crate::reader::{delivers, run};
use crate::record::RecordView;
use crate::text::{
    header_body, header_desc, header_id, is_space, leading_bytes, lemma_token_len_is,
    strip_terminator, trim,
};

verus! {

/// The header line of a record: `@`, the identifier and, where there is a
/// description, a space and the description.
pub open spec fn header_line(rec: RecordView) -> Seq<char> {
    seq!['@'] + rec.id + match rec.desc {
        Some(d) => seq![' '] + d,
        None => Seq::empty(),
    }
}

/// A record that the single-line layout can hold: no whitespace in the
/// identifier, no whitespace around the description, a non-empty sequence
/// and as many quality bytes.
pub open spec fn writable(rec: RecordView) -> bool {
    &&& forall|j: int| 0 <= j < rec.id.len() ==> !is_space(#[trigger] rec.id[j])
    &&& rec.desc matches Some(d) ==> trim(d) == d
    &&& rec.well_formed()
}

/// Whether `input` is a line that, without its terminator, is `line`.
pub open spec fn is_line(input: LineReadView, line: Seq<char>) -> bool {
    input matches LineReadView::Data { text, .. } && strip_terminator(text) == line
}

/// Whether `input` is a line that, without its terminator, holds the bytes
/// `bytes`.
pub open spec fn is_line_of_bytes(input: LineReadView, bytes: Seq<u8>) -> bool {
    input matches LineReadView::Data { text, .. } && encode_utf8(strip_terminator(text)) == bytes
}

/// Whether `input` is a separator line.
pub open spec fn is_plus_line(input: LineReadView) -> bool {
    input matches LineReadView::Data { text, .. } && strip_terminator(text).len() > 0
        && strip_terminator(text)[0] == '+'
}

/// Whether the four line reads from `at` on hold `rec` in the single-line
/// layout, whatever their terminators.
pub open spec fn holds_record(inputs: Seq<LineReadView>, at: int, rec: RecordView) -> bool {
    &&& is_line(inputs[at], header_line(rec))
    &&& is_line_of_bytes(inputs[at + 1], rec.seq)
    &&& is_plus_line(inputs[at + 2])
    &&& is_line_of_bytes(inputs[at + 3], rec.qual)
}

/// Whether `inputs` is the stream of line reads that holds `recs`, one after
/// the other, in the single-line layout.
pub open spec fn holds_records(inputs: Seq<LineReadView>, recs: Seq<RecordView>) -> bool {
    &&& inputs.len() == 4 * recs.len()
    &&& forall|i: int| 0 <= i < recs.len() ==> holds_record(inputs, 4 * i, #[trigger] recs[i])
}

/// The outcomes that give `recs`, one after the other.
pub open spec fn records(recs: Seq<RecordView>) -> Seq<OutcomeView> {
    Seq::new(recs.len(), |i: int| OutcomeView::Record(recs[i]))
}

/// The header line of a writable record splits into its identifier and its
/// description.
pub proof fn lemma_header_round_trip(rec: RecordView)
    requires
        writable(rec),
    ensures
        header_line(rec).len() > 0,
        header_line(rec)[0] == '@',
        header_id(header_line(rec)) == rec.id,
        header_desc(header_line(rec)) == rec.desc,
{
    let h = header_line(rec);
    let body = header_body(h);
    let k = rec.id.len() as int;
    match rec.desc {
        Some(d) => {
            assert(body =~= rec.id + (seq![' '] + d));
            assert(body[k] == ' ');
            assert forall|j: int| 0 <= j < k implies !is_space(#[trigger] body[j]) by {
                assert(body[j] == rec.id[j]);
            }
            lemma_token_len_is(body, k);
            assert(body.take(k) =~= rec.id);
            assert(body.skip(k + 1) =~= d);
        },
        None => {
            assert(body =~= rec.id);
            assert forall|j: int| 0 <= j < k implies !is_space(#[trigger] body[j]) by {
                assert(body[j] == rec.id[j]);
            }
            lemma_token_len_is(body, k);
            assert(body.take(k) =~= rec.id);
        },
    }
}

/// Between records, four line reads that hold a writable record make the
/// machine give that record and leave it between records, four lines on.
pub proof fn lemma_one_record(
    s: ParserView,
    rec: RecordView,
    a: LineReadView,
    b: LineReadView,
    c: LineReadView,
    d: LineReadView,
)
    requires
        s.stage == Stage::SeekHeader,
        s.opts.line_mode == LineMode::Single,
        s.pos.line_num + 4 <= u64::MAX,
        writable(rec),
        is_line(a, header_line(rec)),
        is_line_of_bytes(b, rec.seq),
        is_plus_line(c),
        is_line_of_bytes(d, rec.qual),
    ensures
        s.step(a).1 is None,
        s.step(a).0.step(b).1 is None,
        s.step(a).0.step(b).0.step(c).1 is None,
        s.step(a).0.step(b).0.step(c).0.step(d).1 == Some(OutcomeView::Record(rec)),
        s.step(a).0.step(b).0.step(c).0.step(d).0.stage == Stage::SeekHeader,
        s.step(a).0.step(b).0.step(c).0.step(d).0.partial == empty_record(),
        s.step(a).0.step(b).0.step(c).0.step(d).0.opts == s.opts,
        s.step(a).0.step(b).0.step(c).0.step(d).0.pos.line_num == s.pos.line_num + 4,
{
    lemma_header_round_trip(rec);
    let s1 = s.step(a).0;
    assert(s.step(a).1 is None);
    assert(s1.stage == Stage::ReadSeq);
    let seq_line = strip_terminator(b->text);
    assert(seq_line.len() > 0) by {
        if seq_line.len() == 0 {
            assert(encode_utf8(seq_line).len() == 0);
        }
    }
    let s2 = s1.step(b).0;
    assert(s1.step(b).1 is None);
    assert(s2.stage == Stage::ReadPlus);
    let s3 = s2.step(c).0;
    assert(s2.step(c).1 is None);
    assert(s3.stage == Stage::ReadQual);
    assert(s3.partial.seq == rec.seq);
    let out = s3.step(d).1;
    assert(out is Some);
    assert(out->0 matches OutcomeView::Record(r) && r =~= rec);
}

/// A stream that holds writable records one after the other, in the
/// single-line layout and with any line terminators, gives exactly those
/// records in that order, and leaves the machine between records. The line
/// counter must have room for the stream.
pub proof fn law_stream_gives_its_records(
    s: ParserView,
    recs: Seq<RecordView>,
    inputs: Seq<LineReadView>,
)
    requires
        s.stage == Stage::SeekHeader,
        s.partial == empty_record(),
        s.opts.line_mode == LineMode::Single,
        forall|i: int| 0 <= i < recs.len() ==> writable(#[trigger] recs[i]),
        holds_records(inputs, recs),
        s.pos.line_num + inputs.len() <= u64::MAX,
    ensures
        run(s, inputs).1 == records(recs),
        run(s, inputs).0.stage == Stage::SeekHeader,
        run(s, inputs).0.partial == empty_record(),
        run(s, inputs).0.opts == s.opts,
        run(s, inputs).0.pos.line_num == s.pos.line_num + inputs.len(),
    decreases recs.len(),
{
    if recs.len() == 0 {
        assert(run(s, inputs).1 =~= records(recs));
    } else {
        let n = recs.len() as int;
        let rec = recs[n - 1];
        let a3 = inputs.drop_last();
        let a2 = a3.drop_last();
        let a1 = a2.drop_last();
        let a0 = a1.drop_last();
        let before = recs.drop_last();
        assert(holds_records(a0, before)) by {
            assert forall|i: int| 0 <= i < before.len() implies holds_record(
                a0,
                4 * i,
                #[trigger] before[i],
            ) by {
                assert(holds_record(inputs, 4 * i, recs[i]));
            }
        }
        assert forall|i: int| 0 <= i < before.len() implies writable(#[trigger] before[i]) by {
            assert(writable(recs[i]));
        }
        law_stream_gives_its_records(s, before, a0);
        let m = run(s, a0).0;
        assert(holds_record(inputs, 4 * (n - 1), recs[n - 1]));
        assert(a1.last() == inputs[4 * (n - 1)]);
        assert(a2.last() == inputs[4 * (n - 1) + 1]);
        assert(a3.last() == inputs[4 * (n - 1) + 2]);
        assert(inputs.last() == inputs[4 * (n - 1) + 3]);
        lemma_one_record(m, rec, a1.last(), a2.last(), a3.last(), inputs.last());
        assert(run(s, a1) == (m.step(a1.last()).0, run(s, a0).1));
        assert(run(s, a2) == (run(s, a1).0.step(a2.last()).0, run(s, a0).1));
        assert(run(s, a3) == (run(s, a2).0.step(a3.last()).0, run(s, a0).1));
        assert(run(s, inputs).1 == run(s, a0).1.push(OutcomeView::Record(rec)));
        assert(run(s, inputs).1 =~= records(recs));
    }
}

/// Between records the end of the stream is a clean end: no fault, and the
/// machine stays where it is.
pub proof fn law_end_between_records(s: ParserView)
    requires
        s.stage == Stage::SeekHeader,
    ensures
        s.step(LineReadView::Eof) == (s, Some(OutcomeView::End)),
{
}

/// A stream that ends right after the last line of its last record gives
/// its records and then a clean end.
pub proof fn law_stream_ends_cleanly(
    s: ParserView,
    recs: Seq<RecordView>,
    inputs: Seq<LineReadView>,
)
    requires
        s.stage == Stage::SeekHeader,
        s.partial == empty_record(),
        s.opts.line_mode == LineMode::Single,
        forall|i: int| 0 <= i < recs.len() ==> writable(#[trigger] recs[i]),
        holds_records(inputs, recs),
        s.pos.line_num + inputs.len() <= u64::MAX,
    ensures
        run(s, inputs.push(LineReadView::Eof)).1 == records(recs).push(OutcomeView::End),
        run(s, inputs.push(LineReadView::Eof)).0 == run(s, inputs).0,
{
    law_stream_gives_its_records(s, recs, inputs);
    assert(inputs.push(LineReadView::Eof).drop_last() =~= inputs);
}

/// A position with its byte count left out.
pub open spec fn lines_only(pos: IoContext) -> IoContext {
    IoContext { byte_pos: 0, ..pos }
}

/// A state with its byte count left out.
pub open spec fn state_content(s: ParserView) -> ParserView {
    ParserView { pos: lines_only(s.pos), ..s }
}

/// A fault with its byte count left out.
pub open spec fn fault_content(f: Fault) -> Fault {
    match f {
        Fault::Io { source, ctx } => Fault::Io { source, ctx: lines_only(ctx) },
        Fault::Format { source, ctx } => Fault::Format { source, ctx: lines_only(ctx) },
    }
}

/// An outcome with its byte count left out. A record has none.
pub open spec fn outcome_content(o: OutcomeView) -> OutcomeView {
    match o {
        OutcomeView::Record(r) => OutcomeView::Record(r),
        OutcomeView::Skipped(f) => OutcomeView::Skipped(fault_content(f)),
        OutcomeView::Failed(f) => OutcomeView::Failed(fault_content(f)),
        OutcomeView::End => OutcomeView::End,
    }
}

/// What a step gives, with its byte count left out.
pub open spec fn yield_content(o: Option<OutcomeView>) -> Option<OutcomeView> {
    match o {
        Some(x) => Some(outcome_content(x)),
        None => None,
    }
}

/// Whether two line reads differ at most in the terminator of the line and
/// in the number of bytes read.
pub open spec fn same_line(a: LineReadView, b: LineReadView) -> bool {
    match (a, b) {
        (LineReadView::Eof, LineReadView::Eof) => true,
        (LineReadView::Fault(e), LineReadView::Fault(f)) => e == f,
        (LineReadView::Data { text: t, .. }, LineReadView::Data { text: u, .. }) =>
            strip_terminator(t) == strip_terminator(u),
        _ => false,
    }
}

/// Whether two streams of line reads differ at most in terminators and byte
/// counts.
pub open spec fn same_lines(xs: Seq<LineReadView>, ys: Seq<LineReadView>) -> bool {
    &&& xs.len() == ys.len()
    &&& forall|i: int| 0 <= i < xs.len() ==> same_line(#[trigger] xs[i], ys[i])
}

/// Whether two series of outcomes differ at most in byte counts.
pub open spec fn same_outcomes(xs: Seq<OutcomeView>, ys: Seq<OutcomeView>) -> bool {
    &&& xs.len() == ys.len()
    &&& forall|k: int|
        0 <= k < xs.len() ==> outcome_content(#[trigger] xs[k]) == outcome_content(ys[k])
}

/// One step on line reads that differ at most in terminator and byte count,
/// from states that differ at most in byte count, gives the same but for
/// byte counts.
pub proof fn lemma_step_same_content(s: ParserView, t: ParserView, a: LineReadView, b: LineReadView)
    requires
        state_content(s) == state_content(t),
        same_line(a, b),
    ensures
        state_content(s.step(a).0) == state_content(t.step(b).0),
        yield_content(s.step(a).1) == yield_content(t.step(b).1),
{
    match (a, b) {
        (LineReadView::Data { raw_len: n, text: x }, LineReadView::Data { raw_len: m, text: y }) => {
            if s.pos.line_num == u64::MAX {
                lemma_eof_same_content(s, t);
            } else {
                let s1 = ParserView { pos: advance_pos(s.pos, n), ..s };
                let t1 = ParserView { pos: advance_pos(t.pos, m), ..t };
                lemma_line_same_content(s1, t1, strip_terminator(x));
            }
        },
        (LineReadView::Fault(e), LineReadView::Fault(f)) => {
            if s.stage != Stage::Resync {
                lemma_raise_same_content(
                    s,
                    t,
                    Fault::Io { source: e, ctx: s.pos },
                    Fault::Io { source: f, ctx: t.pos },
                );
            }
        },
        _ => {
            lemma_eof_same_content(s, t);
        },
    }
}

proof fn lemma_raise_same_content(s: ParserView, t: ParserView, f: Fault, g: Fault)
    requires
        state_content(s) == state_content(t),
        fault_content(f) == fault_content(g),
    ensures
        state_content(s.raise(f).0) == state_content(t.raise(g).0),
        yield_content(s.raise(f).1) == yield_content(t.raise(g).1),
{
}

proof fn lemma_reject_same_content(s: ParserView, t: ParserView, source: FormatFault)
    requires
        state_content(s) == state_content(t),
    ensures
        state_content(s.reject(source).0) == state_content(t.reject(source).0),
        yield_content(s.reject(source).1) == yield_content(t.reject(source).1),
{
    lemma_raise_same_content(
        s,
        t,
        Fault::Format { source, ctx: s.pos },
        Fault::Format { source, ctx: t.pos },
    );
}

proof fn lemma_eof_same_content(s: ParserView, t: ParserView)
    requires
        state_content(s) == state_content(t),
    ensures
        state_content(s.on_eof().0) == state_content(t.on_eof().0),
        yield_content(s.on_eof().1) == yield_content(t.on_eof().1),
{
    lemma_reject_same_content(s, t, FormatFault::UnexpectedEof);
}

proof fn lemma_header_same_content(s: ParserView, t: ParserView, h: Seq<char>)
    requires
        state_content(s) == state_content(t),
    ensures
        state_content(s.on_header(h).0) == state_content(t.on_header(h).0),
        yield_content(s.on_header(h).1) == yield_content(t.on_header(h).1),
{
    lemma_reject_same_content(s, t, FormatFault::FastaHeaderDetected);
    lemma_reject_same_content(
        s,
        t,
        FormatFault::MissingHeader { found: h[0], first_bytes: leading_bytes(h) },
    );
}

proof fn lemma_close_same_content(s: ParserView, t: ParserView, qual: Seq<u8>)
    requires
        state_content(s) == state_content(t),
    ensures
        state_content(s.close(qual).0) == state_content(t.close(qual).0),
        yield_content(s.close(qual).1) == yield_content(t.close(qual).1),
{
    lemma_reject_same_content(
        s,
        t,
        FormatFault::LengthMismatch {
            seq_len: s.partial.seq.len() as usize,
            qual_len: qual.len() as usize,
        },
    );
}

proof fn lemma_line_same_content(s: ParserView, t: ParserView, line: Seq<char>)
    requires
        state_content(s) == state_content(t),
    ensures
        state_content(s.on_line(line).0) == state_content(t.on_line(line).0),
        yield_content(s.on_line(line).1) == yield_content(t.on_line(line).1),
{
    match s.stage {
        Stage::SeekHeader => {
            lemma_header_same_content(s, t, without_bom(line));
        },
        Stage::ReadSeq => {
            lemma_reject_same_content(s, t, FormatFault::EmptySequence);
        },
        Stage::ReadPlus => {
            lemma_reject_same_content(s, t, FormatFault::MissingPlus);
        },
        Stage::ReadQual => {
            lemma_close_same_content(s, t, encode_utf8(line));
        },
        Stage::AccumulateSeq => {
            lemma_reject_same_content(s, t, FormatFault::EmptySequence);
        },
        Stage::AccumulateQual => {
            lemma_close_same_content(s, t, s.partial.qual + encode_utf8(line));
        },
        Stage::Resync => {
            lemma_header_same_content(s, t, line);
        },
    }
}

/// Streams that differ at most in line terminators and byte counts give the
/// same outcomes but for byte counts; the records they give are equal.
pub proof fn law_terminators_do_not_matter(
    s: ParserView,
    t: ParserView,
    xs: Seq<LineReadView>,
    ys: Seq<LineReadView>,
)
    requires
        state_content(s) == state_content(t),
        same_lines(xs, ys),
    ensures
        state_content(run(s, xs).0) == state_content(run(t, ys).0),
        same_outcomes(run(s, xs).1, run(t, ys).1),
    decreases xs.len(),
{
    if xs.len() > 0 {
        let xs0 = xs.drop_last();
        let ys0 = ys.drop_last();
        assert(same_lines(xs0, ys0)) by {
            assert forall|i: int| 0 <= i < xs0.len() implies same_line(#[trigger] xs0[i], ys0[i]) by {
                assert(same_line(xs[i], ys[i]));
            }
        }
        law_terminators_do_not_matter(s, t, xs0, ys0);
        assert(same_line(xs[xs.len() - 1], ys[xs.len() - 1]));
        lemma_step_same_content(run(s, xs0).0, run(t, ys0).0, xs.last(), ys.last());
    }
}

/// Whether `inputs` are the lines `lines`, each followed by `eol`.
pub open spec fn lines_with(inputs: Seq<LineReadView>, lines: Seq<Seq<char>>, eol: Seq<char>) -> bool {
    &&& inputs.len() == lines.len()
    &&& forall|i: int|
        0 <= i < lines.len() ==> (#[trigger] inputs[i] matches LineReadView::Data { text, .. }
            && text == lines[i] + eol)
}

/// A line feed after a line that does not end in a carriage return, and a
/// carriage return and line feed after any line, are removed and nothing
/// else.
pub proof fn lemma_strip_eol(line: Seq<char>)
    ensures
        strip_terminator(line + seq!['\r', '\n']) == line,
        !(line.len() > 0 && line.last() == '\r') ==> strip_terminator(line + seq!['\n']) == line,
{
    let crlf = line + seq!['\r', '\n'];
    assert(crlf.drop_last() =~= line + seq!['\r']);
    assert((line + seq!['\r']).drop_last() =~= line);
    let lf = line + seq!['\n'];
    assert(lf.drop_last() =~= line);
}

/// The same lines, none of which ends in a carriage return, give the same
/// records whether each is ended by a line feed or by a carriage return and
/// a line feed; the other outcomes differ at most in byte counts.
pub proof fn law_crlf_equals_lf(
    s: ParserView,
    lines: Seq<Seq<char>>,
    lf: Seq<LineReadView>,
    crlf: Seq<LineReadView>,
)
    requires
        forall|i: int|
            0 <= i < lines.len() ==> !((#[trigger] lines[i]).len() > 0 && lines[i].last() == '\r'),
        lines_with(lf, lines, seq!['\n']),
        lines_with(crlf, lines, seq!['\r', '\n']),
    ensures
        same_outcomes(run(s, lf).1, run(s, crlf).1),
        forall|k: int|
            0 <= k < run(s, lf).1.len() ==> ((#[trigger] run(s, lf).1[k]) is Record ==> run(
                s,
                crlf,
            ).1[k] == run(s, lf).1[k]),
        forall|k: int|
            0 <= k < run(s, crlf).1.len() ==> ((#[trigger] run(s, crlf).1[k]) is Record ==> run(
                s,
                lf,
            ).1[k] == run(s, crlf).1[k]),
{
    assert(same_lines(lf, crlf)) by {
        assert forall|i: int| 0 <= i < lf.len() implies same_line(#[trigger] lf[i], crlf[i]) by {
            assert(!(lines[i].len() > 0 && lines[i].last() == '\r'));
            lemma_strip_eol(lines[i]);
        }
    }
    law_terminators_do_not_matter(s, s, lf, crlf);
    assert forall|k: int|
        0 <= k < run(s, lf).1.len() && (#[trigger] run(s, lf).1[k]) is Record implies run(
            s,
            crlf,
        ).1[k] == run(s, lf).1[k] by {
        assert(outcome_content(run(s, lf).1[k]) == outcome_content(run(s, crlf).1[k]));
    }
    assert forall|k: int|
        0 <= k < run(s, crlf).1.len() && (#[trigger] run(s, crlf).1[k]) is Record implies run(
            s,
            lf,
        ).1[k] == run(s, crlf).1[k] by {
        assert(outcome_content(run(s, lf).1[k]) == outcome_content(run(s, crlf).1[k]));
    }
}

/// Feeding one stream after another is feeding their concatenation.
pub proof fn law_run_concat(s: ParserView, xs: Seq<LineReadView>, ys: Seq<LineReadView>)
    ensures
        run(s, xs + ys).0 == run(run(s, xs).0, ys).0,
        run(s, xs + ys).1 == run(s, xs).1 + run(run(s, xs).0, ys).1,
    decreases ys.len(),
{
    if ys.len() == 0 {
        assert(xs + ys =~= xs);
        assert(run(s, xs).1 + Seq::<OutcomeView>::empty() =~= run(s, xs).1);
    } else {
        assert((xs + ys).drop_last() =~= xs + ys.drop_last());
        assert((xs + ys).last() == ys.last());
        law_run_concat(s, xs, ys.drop_last());
        let mid = run(run(s, xs).0, ys.drop_last());
        match mid.0.step(ys.last()).1 {
            Some(o) => {
                assert((run(s, xs).1 + mid.1).push(o) =~= run(s, xs).1 + mid.1.push(o));
            },
            None => {},
        }
    }
}

/// On a stream that holds writable records in the single-line layout, an
/// iteration that starts between records reads exactly the four lines of the
/// first record and gives that record.
pub proof fn law_iteration_gives_first_record(
    s: ParserView,
    recs: Seq<RecordView>,
    inputs: Seq<LineReadView>,
    fed: Seq<LineReadView>,
    t: ParserView,
    item: Option<Result<RecordView, Fault>>,
)
    requires
        s.stage == Stage::SeekHeader,
        s.opts.line_mode == LineMode::Single,
        recs.len() > 0,
        writable(recs[0]),
        holds_records(inputs, recs),
        s.pos.line_num + 4 <= u64::MAX,
        fed.is_prefix_of(inputs),
        delivers(s, fed, t, item),
    ensures
        fed == inputs.take(4),
        item == Some(Ok::<RecordView, Fault>(recs[0])),
        t.stage == Stage::SeekHeader,
        t.partial == empty_record(),
        t.opts == s.opts,
        t.pos.line_num == s.pos.line_num + 4,
{
    assert(holds_record(inputs, 4 * 0int, recs[0]));
    lemma_one_record(s, recs[0], inputs[0], inputs[1], inputs[2], inputs[3]);
    let head0 = inputs.take(0);
    let head1 = inputs.take(1);
    let head2 = inputs.take(2);
    let head3 = inputs.take(3);
    let head4 = inputs.take(4);
    assert(head1.drop_last() =~= head0);
    assert(head2.drop_last() =~= head1);
    assert(head3.drop_last() =~= head2);
    assert(head4.drop_last() =~= head3);
    assert(run(s, head0) == (s, Seq::<OutcomeView>::empty()));
    assert(run(s, head1) == (s.step(inputs[0]).0, Seq::<OutcomeView>::empty()));
    assert(run(s, head2) == (run(s, head1).0.step(inputs[1]).0, Seq::<OutcomeView>::empty()));
    assert(run(s, head3) == (run(s, head2).0.step(inputs[2]).0, Seq::<OutcomeView>::empty()));
    assert(run(s, head4).1 =~= seq![OutcomeView::Record(recs[0])]);
    let n = fed.len() as int;
    assert(fed =~= inputs.take(n));
    assert(fed.drop_last() =~= inputs.take(n - 1));
    assert(fed.last() == inputs[n - 1]);
    if n > 4 {
        let rest = inputs.subrange(4, n - 1);
        assert(inputs.take(n - 1) =~= head4 + rest);
        law_run_concat(s, head4, rest);
        assert(run(s, fed.drop_last()).1[0] == OutcomeView::Record(recs[0]));
        assert(false);
    }
}

/// An iteration that starts between records and meets the end of the stream
/// at its first read gives the clean end and leaves the machine as it was.
pub proof fn law_iteration_ends_cleanly(
    s: ParserView,
    fed: Seq<LineReadView>,
    t: ParserView,
    item: Option<Result<RecordView, Fault>>,
)
    requires
        s.stage == Stage::SeekHeader,
        fed.len() > 0,
        fed[0] == LineReadView::Eof,
        delivers(s, fed, t, item),
    ensures
        fed.len() == 1,
        item is None,
        t == s,
{
    let one = seq![LineReadView::Eof];
    assert(one.drop_last() =~= Seq::<LineReadView>::empty());
    assert(run(s, one.drop_last()) == (s, Seq::<OutcomeView>::empty()));
    assert(one.last() == LineReadView::Eof);
    assert(s.step(LineReadView::Eof) == (s, Some(OutcomeView::End)));
    assert(run(s, one).1 =~= seq![OutcomeView::End]);
    if fed.len() > 1 {
        let rest = fed.subrange(1, fed.len() - 1);
        assert(fed.drop_last() =~= one + rest);
        law_run_concat(s, one, rest);
        assert(run(s, fed.drop_last()).1[0] == OutcomeView::End);
        assert(false);
    } else {
        assert(fed.drop_last() =~= Seq::<LineReadView>::empty());
    }
}

} // verus!
