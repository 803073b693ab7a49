use vstd::prelude::*;

verus! {

/// Mathematical content of a record.
pub struct RecordView {
    pub id: Seq<char>,
    pub desc: Option<Seq<char>>,
    pub seq: Seq<u8>,
    pub qual: Seq<u8>,
}

/// One parsed record: identifier, optional description, sequence bytes and
/// quality bytes.
#[derive(Debug, Clone, PartialEq, Eq)]
pub struct FastqRecord {
    pub id: String,
    pub desc: Option<String>,
    pub seq: Vec<u8>,
    pub qual: Vec<u8>,
}

impl View for FastqRecord {
    type V = RecordView;

    open spec fn view(&self) -> RecordView {
        RecordView {
            id: self.id@,
            desc: match self.desc {
                Some(d) => Some(d@),
                None => None,
            },
            seq: self.seq@,
            qual: self.qual@,
        }
    }
}

impl RecordView {
    /// A record as the parser emits it: a non-empty sequence and one quality
    /// byte for each sequence byte.
    pub open spec fn well_formed(self) -> bool {
        self.seq.len() > 0 && self.qual.len() == self.seq.len()
    }
}

impl FastqRecord {
    /// Number of sequence bytes.
    #[inline]
    pub fn len(&self) -> (n: usize)
        ensures
            n == self@.seq.len(),
    {
        self.seq.len()
    }

    /// Whether the sequence holds no byte.
    #[inline]
    pub fn is_empty(&self) -> (b: bool)
        ensures
            b == (self@.seq.len() == 0),
    {
        self.seq.len() == 0
    }
}

} // verus!
