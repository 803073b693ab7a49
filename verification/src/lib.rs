//! Streaming FASTQ reader: a line-driven record parser with error recovery.
//!
//! The parser is a state machine ([`parser::RecordParser`]) that is fed the
//! outcome of one line read at a time: it counts the position, removes the
//! line terminator, assembles records in the single-line or the multi-line
//! layout, classifies faults and, under the lenient policy, looks for the
//! next header after a fault. [`reader::FastqReader`] drives the machine over
//! any buffered byte stream, plain or gzip; a front end with another way of
//! obtaining lines drives the same machine and so gives the same results.
//! [`laws`] states what holds of the machine over whole streams.

pub mod error;
pub mod laws;
pub mod parser;
pub mod policy;
pub mod reader;
pub mod record;
pub mod text;
pub mod transport;

pub use crate::error::{FastqError, Fault, FormatError, FormatFault, IoContext};
pub use crate::parser::{LineRead, Outcome, RecordParser, Stage};
pub use crate::policy::{ErrorPolicy, LineMode, ReaderOptions};
pub use crate::reader::{FastqReader, Source};
pub use crate::record::{FastqRecord, RecordView};
pub use crate::transport::{has_gz_extension, looks_like_gzip, select_transport, Transport};
