use vstd::prelude::*;

verus! {

/// What the reader does with a malformed record.
#[derive(Debug, Clone, Copy, PartialEq, Eq, Structural)]
pub enum ErrorPolicy {
    /// Drop the malformed record and look for the next header.
    Skip,
    /// Hand the first fault to the caller.
    Return,
}

/// How sequence and quality lines are laid out.
#[derive(Debug, Clone, Copy, PartialEq, Eq, Structural)]
pub enum LineMode {
    /// Sequence and quality take exactly one line each.
    Single,
    /// Sequence and quality may each span several lines.
    Multi,
}

/// Settings of one reader, fixed when it is made.
#[derive(Debug, Clone, Copy)]
pub struct ReaderOptions {
    pub error_policy: ErrorPolicy,
    pub fastq_only: bool,
    pub line_mode: LineMode,
}

impl Default for ReaderOptions {
    /// Lenient, FASTQ only, single-line layout.
    fn default() -> (r: Self)
        ensures
            r.error_policy == ErrorPolicy::Skip,
            r.fastq_only,
            r.line_mode == LineMode::Single,
    {
        ReaderOptions {
            error_policy: ErrorPolicy::Skip,
            fastq_only: true,
            line_mode: LineMode::Single,
        }
    }
}

} // verus!
