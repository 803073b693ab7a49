use flate2::write::GzEncoder;
use flate2::Compression;
use kira_cdh_compat_fastq_reader::{
    looks_like_gzip, ErrorPolicy, FastqError, FastqReader, FastqRecord, IoContext, LineMode,
    ReaderOptions, Source,
};
use std::io::{BufReader, Cursor, Write};

fn gzip(text: &[u8]) -> Vec<u8> {
    let mut enc = GzEncoder::new(Vec::new(), Compression::fast());
    enc.write_all(text).unwrap();
    enc.finish().unwrap()
}

fn strict() -> ReaderOptions {
    ReaderOptions { error_policy: ErrorPolicy::Return, fastq_only: true, line_mode: LineMode::Single }
}

fn read_all<R: std::io::BufRead>(mut fq: FastqReader<R>) -> Vec<FastqRecord> {
    let mut out = Vec::new();
    while let Some(item) = fq.next() {
        out.push(item.unwrap());
    }
    out
}

#[test]
fn gzip_stream_parses_like_its_plain_text() {
    let text: &[u8] = b"@x\nACGT\n+\n!!!!\n@y second\nGG\n+\n##\n";
    let packed = gzip(text);
    assert!(looks_like_gzip(&packed));
    assert!(!looks_like_gzip(text));
    let plain = read_all(FastqReader::from_bufread(BufReader::new(text), strict()));
    let unpacked = read_all(FastqReader::from_gzip(Source::Reader, &packed[..], strict()));
    assert_eq!(plain.len(), 2);
    assert_eq!(plain, unpacked);
    assert_eq!(unpacked[0].id, "x");
    assert_eq!(unpacked[0].seq, b"ACGT");
    assert_eq!(unpacked[0].qual, b"!!!!");
    assert_eq!(unpacked[1].desc.as_deref(), Some("second"));
}

#[test]
fn gzip_positions_count_decoded_bytes() {
    let text: &[u8] = b"@x\nACGT\n+\n!!!!\n";
    let packed = gzip(text);
    let mut fq = FastqReader::from_gzip(Source::Reader, &packed[..], strict());
    assert!(fq.next().unwrap().is_ok());
    assert!(fq.next().is_none());
    assert_eq!(fq.ctx(), IoContext { byte_pos: 15, line_num: 4 });
    assert!(matches!(fq.source(), Source::Reader));
}

#[test]
fn gzip_members_read_as_one_stream() {
    let mut packed = gzip(b"@x\nACGT\n+\n");
    packed.extend_from_slice(&gzip(b"!!!!\n@y\nG\n+\n#\n"));
    let recs = read_all(FastqReader::from_gzip(Source::Reader, &packed[..], strict()));
    assert_eq!(recs.len(), 2);
    assert_eq!(recs[0].qual, b"!!!!");
    assert_eq!(recs[1].id, "y");
}

#[test]
fn gzip_decoder_on_plain_text_is_a_transport_fault() {
    let mut fq = FastqReader::from_gzip(Source::Reader, &b"@x\nACGT\n+\n!!!!\n"[..], strict());
    match fq.next() {
        Some(Err(FastqError::Io { ctx, .. })) => {
            assert_eq!(ctx, IoContext { byte_pos: 0, line_num: 0 });
        }
        other => panic!("expected a transport fault, got {:?}", other),
    }
}

#[test]
fn plain_and_mapped_transports_read_the_same_text() {
    let text: &[u8] = b"@x d\nACGT\n+\n!!!!\n@y\nG\n+\n#\n";
    let a = read_all(FastqReader::from_plain(Source::Reader, text, strict()));
    let b = read_all(FastqReader::from_mapped(Source::Reader, Cursor::new(text.to_vec()), strict()));
    assert_eq!(a.len(), 2);
    assert_eq!(a, b);
    assert_eq!(a[0].desc.as_deref(), Some("d"));
    assert_eq!(a[1].seq, b"G");
}

#[test]
fn parse_gz_file_single_line() {
    let mut enc = GzEncoder::new(Vec::new(), Compression::fast());
    writeln(&mut enc, "@x");
    writeln(&mut enc, "ACGT");
    writeln(&mut enc, "+");
    writeln(&mut enc, "!!!!");
    let packed = enc.finish().unwrap();

    let mut fq = FastqReader::from_gzip(
        Source::Reader,
        &packed[..],
        ReaderOptions {
            error_policy: ErrorPolicy::Return,
            fastq_only: true,
            line_mode: LineMode::Single,
        },
    );

    let rec = fq.next().unwrap().unwrap();
    assert_eq!(rec.id, "x");
    assert_eq!(rec.seq, b"ACGT");
    assert_eq!(rec.qual, b"!!!!");
    assert!(fq.next().is_none());
}

fn writeln(enc: &mut GzEncoder<Vec<u8>>, line: &str) {
    enc.write_all(line.as_bytes()).unwrap();
    enc.write_all(b"\n").unwrap();
}
