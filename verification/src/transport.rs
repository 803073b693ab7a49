//! How the bytes of a file are to be read: the decisions, without the
//! opening and the reading.

use vstd::prelude::*;
use vstd::string::*;

verus! {

/// The ways in which a file's bytes reach the reader.
#[derive(Debug, Clone, Copy, PartialEq, Eq, Structural)]
pub enum Transport {
    /// Through a gzip decoder.
    Gzip,
    /// Through a read-only memory mapping.
    Mapped,
    /// Through an ordinary buffered reader.
    Buffered,
}

/// Whether `head` starts with the two bytes that open a gzip stream.
pub open spec fn is_gzip_magic(head: Seq<u8>) -> bool {
    head.len() >= 2 && head[0] == 0x1F && head[1] == 0x8B
}

/// Whether the first bytes of a stream, `head`, are those of a gzip stream.
pub fn looks_like_gzip(head: &[u8]) -> (b: bool)
    ensures
        b == is_gzip_magic(head@),
{
    head.len() >= 2 && head[0] == 0x1F && head[1] == 0x8B
}

/// Whether a path's extension, if it has one, is `gz`.
pub fn has_gz_extension(extension: Option<&str>) -> (b: bool)
    ensures
        b == (extension matches Some(e) && e@ == seq!['g', 'z']),
{
    match extension {
        Some(e) => {
            let yes = e.unicode_len() == 2 && e.get_char(0) == 'g' && e.get_char(1) == 'z';
            assert(yes ==> e@ =~= seq!['g', 'z']);
            yes
        },
        None => false,
    }
}

/// The transport for a file: gzip where the extension says so or, failing
/// that, where the first bytes do; else a mapping where `mmap` asks for one;
/// else a buffered reader.
pub open spec fn transport_for(gz_extension: bool, head: Option<Seq<u8>>, mmap: bool) -> Transport {
    if gz_extension || (head matches Some(h) && is_gzip_magic(h)) {
        Transport::Gzip
    } else if mmap {
        Transport::Mapped
    } else {
        Transport::Buffered
    }
}

/// The view of an optional slice.
pub open spec fn head_view(head: Option<&[u8]>) -> Option<Seq<u8>> {
    match head {
        Some(h) => Some(h@),
        None => None,
    }
}

/// Chooses the transport for a file. `head` holds the first bytes of the
/// file where they could be looked at, `mmap` says whether plain files are
/// to be mapped.
pub fn select_transport(gz_extension: bool, head: Option<&[u8]>, mmap: bool) -> (t: Transport)
    ensures
        t == transport_for(gz_extension, head_view(head), mmap),
{
    let magic = match head {
        Some(h) => looks_like_gzip(h),
        None => false,
    };
    if gz_extension || magic {
        Transport::Gzip
    } else if mmap {
        Transport::Mapped
    } else {
        Transport::Buffered
    }
}

} // verus!
