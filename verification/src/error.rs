use vstd::prelude::*;

verus! {

/// `std::io::Error`: a failure of the underlying byte stream, carried
/// through unchanged.
#[verifier::external_type_specification]
#[verifier::external_body]
pub struct ExIoError(std::io::Error);

/// Where in the decoded stream something happened: bytes and lines consumed
/// so far.
#[derive(Debug, Clone, Copy, PartialEq, Eq, Structural)]
pub struct IoContext {
    pub byte_pos: u64,
    pub line_num: u64,
}

/// Mathematical content of a [`FormatError`].
pub enum FormatFault {
    MissingHeader { found: char, first_bytes: Seq<u8> },
    FastaHeaderDetected,
    MissingPlus,
    UnexpectedEof,
    LengthMismatch { seq_len: usize, qual_len: usize },
    EmptySequence,
}

/// Ways in which the text of a record can be wrong.
#[derive(Debug)]
pub enum FormatError {
    /// A record starts with something other than `@`. `found` is the
    /// offending character, `first_bytes` the first bytes of the line (at most
    /// four).
    MissingHeader { found: char, first_bytes: Vec<u8> },
    /// A record starts with `>` and the reader accepts FASTQ only.
    FastaHeaderDetected,
    /// The line after the sequence does not start with `+`.
    MissingPlus,
    /// The stream ended inside a record.
    UnexpectedEof,
    /// Quality and sequence differ in length.
    LengthMismatch { seq_len: usize, qual_len: usize },
    /// The record has no sequence byte.
    EmptySequence,
}

impl View for FormatError {
    type V = FormatFault;

    open spec fn view(&self) -> FormatFault {
        match *self {
            FormatError::MissingHeader { found, first_bytes } => FormatFault::MissingHeader {
                found,
                first_bytes: first_bytes@,
            },
            FormatError::FastaHeaderDetected => FormatFault::FastaHeaderDetected,
            FormatError::MissingPlus => FormatFault::MissingPlus,
            FormatError::UnexpectedEof => FormatFault::UnexpectedEof,
            FormatError::LengthMismatch { seq_len, qual_len } => FormatFault::LengthMismatch {
                seq_len,
                qual_len,
            },
            FormatError::EmptySequence => FormatFault::EmptySequence,
        }
    }
}

/// Mathematical content of a [`FastqError`].
pub enum Fault {
    Io { source: std::io::Error, ctx: IoContext },
    Format { source: FormatFault, ctx: IoContext },
}

/// A fault met while reading, with the position at which it was detected.
#[derive(Debug)]
pub enum FastqError {
    /// The byte stream failed.
    Io { source: std::io::Error, ctx: IoContext },
    /// The text is not a FASTQ record.
    Format { source: FormatError, ctx: IoContext },
}

impl View for FastqError {
    type V = Fault;

    open spec fn view(&self) -> Fault {
        match *self {
            FastqError::Io { source, ctx } => Fault::Io { source, ctx },
            FastqError::Format { source, ctx } => Fault::Format { source: source@, ctx },
        }
    }
}

impl Fault {
    /// The position attached to the fault.
    pub open spec fn ctx(self) -> IoContext {
        match self {
            Fault::Io { ctx, .. } => ctx,
            Fault::Format { ctx, .. } => ctx,
        }
    }
}

impl FastqError {
    /// A transport fault at `ctx`.
    pub fn io_err(source: std::io::Error, ctx: IoContext) -> (e: Self)
        ensures
            e@ == (Fault::Io { source, ctx }),
    {
        FastqError::Io { source, ctx }
    }

    /// A format fault at `ctx`.
    pub fn fmt_err(source: FormatError, ctx: IoContext) -> (e: Self)
        ensures
            e@ == (Fault::Format { source: source@, ctx }),
    {
        FastqError::Format { source, ctx }
    }

    /// The position at which the fault was detected.
    pub fn ctx(&self) -> (c: IoContext)
        ensures
            c == self@.ctx(),
    {
        match self {
            FastqError::Io { ctx, .. } => *ctx,
            FastqError::Format { ctx, .. } => *ctx,
        }
    }
}

} // verus!
