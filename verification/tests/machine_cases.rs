use kira_cdh_compat_fastq_reader::text::{
    chars_of, first_bytes, is_whitespace, split_header, starts_with_char, strip_line,
};
use kira_cdh_compat_fastq_reader::{
    has_gz_extension, looks_like_gzip, select_transport, ErrorPolicy, FastqError, FastqRecord,
    FormatError, IoContext, LineMode, LineRead, Outcome, ReaderOptions, RecordParser, Stage,
    Transport,
};

fn line(text: &str) -> LineRead {
    LineRead::Data { raw_len: text.len(), text: text.to_string() }
}

fn parser(error_policy: ErrorPolicy, line_mode: LineMode) -> RecordParser {
    RecordParser::new(ReaderOptions { error_policy, fastq_only: true, line_mode })
}

#[test]
fn whitespace_agrees_with_std_on_every_character() {
    for u in 0..=0x10FFFFu32 {
        if let Some(c) = char::from_u32(u) {
            assert_eq!(is_whitespace(c), c.is_whitespace(), "U+{:04X}", u);
        }
    }
}

fn split_by_std(header: &str) -> (String, Option<String>) {
    let mut parts = header[1..].splitn(2, char::is_whitespace);
    let id = parts.next().unwrap_or("").to_string();
    let desc = parts.next().map(|s| s.trim().to_string());
    (id, desc)
}

#[test]
fn header_split_agrees_with_std() {
    let headers = [
        "@",
        "@r1",
        "@r1 ",
        "@r1  ",
        "@ r1",
        "@r1 desc",
        "@r1\tdesc with  spaces \t",
        "@r1   lead and trail   ",
        "@id\u{a0}nbsp\u{3000}",
        "@\u{e9}t\u{e9}\u{2003}wide\u{2003}",
        "@a b c d",
        "@@@ @",
        "@r1\u{85}next line",
    ];
    for h in headers {
        assert_eq!(split_header(h), split_by_std(h), "{:?}", h);
    }
}

#[test]
fn header_split_on_given_lines() {
    assert_eq!(split_header("@read1 desc"), ("read1".to_string(), Some("desc".to_string())));
    assert_eq!(split_header("@read2"), ("read2".to_string(), None));
    assert_eq!(split_header("@r  a b  "), ("r".to_string(), Some("a b".to_string())));
    assert_eq!(split_header("@r "), ("r".to_string(), Some(String::new())));
    assert_eq!(split_header(""), (String::new(), None));
}

fn stripped(raw: &str) -> String {
    let mut s = raw.to_string();
    strip_line(&mut s);
    s
}

#[test]
fn strip_line_removes_one_terminator() {
    assert_eq!(stripped("ACGT\n"), "ACGT");
    assert_eq!(stripped("ACGT\r\n"), "ACGT");
    assert_eq!(stripped("ACGT"), "ACGT");
    assert_eq!(stripped("ACGT\r"), "ACGT");
    assert_eq!(stripped("ACGT\n\n"), "ACGT\n");
    assert_eq!(stripped("ACGT\r\r\n"), "ACGT\r");
    assert_eq!(stripped("ACGT\n\r"), "ACGT\n");
    assert_eq!(stripped("\n"), "");
    assert_eq!(stripped(""), "");
}

#[test]
fn text_helpers_on_given_values() {
    assert!(starts_with_char("@r1", '@'));
    assert!(!starts_with_char("r1@", '@'));
    assert!(!starts_with_char("", '@'));
    assert_eq!(chars_of("a\u{e9}z"), vec!['a', '\u{e9}', 'z']);
    assert_eq!(first_bytes(""), Vec::<u8>::new());
    assert_eq!(first_bytes("ab"), b"ab".to_vec());
    assert_eq!(first_bytes("abcdef"), b"abcd".to_vec());
    assert_eq!(first_bytes("\u{20ac}uro"), vec![0xE2, 0x82, 0xAC, b'u']);
}

#[test]
fn machine_walks_through_a_single_line_record() {
    let mut p = parser(ErrorPolicy::Return, LineMode::Single);
    assert_eq!(p.stage(), Stage::SeekHeader);
    assert!(p.feed(line("\n")).is_none());
    assert_eq!(p.stage(), Stage::SeekHeader);
    assert!(p.feed(line("@r1 some text\n")).is_none());
    assert_eq!(p.stage(), Stage::ReadSeq);
    assert!(p.feed(line("ACGT\r\n")).is_none());
    assert_eq!(p.stage(), Stage::ReadPlus);
    assert!(p.feed(line("+r1\n")).is_none());
    assert_eq!(p.stage(), Stage::ReadQual);
    match p.feed(line("!!!!")) {
        Some(Outcome::Record(r)) => {
            assert_eq!(
                r,
                FastqRecord {
                    id: "r1".to_string(),
                    desc: Some("some text".to_string()),
                    seq: b"ACGT".to_vec(),
                    qual: b"!!!!".to_vec(),
                }
            );
        }
        other => panic!("expected a record, got {:?}", other),
    }
    assert_eq!(p.stage(), Stage::SeekHeader);
    assert_eq!(p.position(), IoContext { byte_pos: 29, line_num: 5 });
    assert!(matches!(p.feed(LineRead::Eof), Some(Outcome::End)));
    assert_eq!(p.position(), IoContext { byte_pos: 29, line_num: 5 });
}

#[test]
fn machine_walks_through_a_multi_line_record() {
    let mut p = parser(ErrorPolicy::Return, LineMode::Multi);
    assert!(p.feed(line("@r1\n")).is_none());
    assert_eq!(p.stage(), Stage::AccumulateSeq);
    assert!(p.feed(line("ACG\n")).is_none());
    assert!(p.feed(line("\n")).is_none());
    assert!(p.feed(line("T\n")).is_none());
    assert_eq!(p.stage(), Stage::AccumulateSeq);
    assert!(p.feed(line("+\n")).is_none());
    assert_eq!(p.stage(), Stage::AccumulateQual);
    assert!(p.feed(line("##\n")).is_none());
    assert!(p.feed(line("\n")).is_none());
    match p.feed(line("##\n")) {
        Some(Outcome::Record(r)) => {
            assert_eq!(r.seq, b"ACGT");
            assert_eq!(r.qual, b"####");
        }
        other => panic!("expected a record, got {:?}", other),
    }
    assert_eq!(p.stage(), Stage::SeekHeader);
}

#[test]
fn machine_resynchronises_under_the_lenient_policy() {
    let mut p = parser(ErrorPolicy::Skip, LineMode::Single);
    match p.feed(line("oops\n")) {
        Some(Outcome::Skipped(FastqError::Format {
            source: FormatError::MissingHeader { found, first_bytes },
            ctx,
        })) => {
            assert_eq!(found, 'o');
            assert_eq!(first_bytes, b"oops".to_vec());
            assert_eq!(ctx, IoContext { byte_pos: 5, line_num: 1 });
        }
        other => panic!("expected a skipped fault, got {:?}", other),
    }
    assert_eq!(p.stage(), Stage::Resync);
    assert!(p.feed(line("ACGT\n")).is_none());
    assert!(p.feed(line("\n")).is_none());
    assert_eq!(p.stage(), Stage::Resync);
    assert!(p.feed(line("@r2 x\n")).is_none());
    assert_eq!(p.stage(), Stage::ReadSeq);
    assert!(p.feed(line("A\n")).is_none());
    assert!(p.feed(line("+\n")).is_none());
    match p.feed(line("#\n")) {
        Some(Outcome::Record(r)) => {
            assert_eq!(r.id, "r2");
            assert_eq!(r.desc.as_deref(), Some("x"));
        }
        other => panic!("expected a record, got {:?}", other),
    }
}

#[test]
fn machine_ends_cleanly_when_resync_meets_the_end_or_a_fault() {
    let mut p = parser(ErrorPolicy::Skip, LineMode::Single);
    assert!(matches!(p.feed(line(">fasta\n")), Some(Outcome::Skipped(_))));
    assert!(matches!(p.feed(LineRead::Eof), Some(Outcome::End)));
    assert_eq!(p.stage(), Stage::SeekHeader);

    let mut p = parser(ErrorPolicy::Skip, LineMode::Single);
    assert!(matches!(p.feed(line(">fasta\n")), Some(Outcome::Skipped(_))));
    let broken = std::io::Error::new(std::io::ErrorKind::Other, "broken");
    assert!(matches!(p.feed(LineRead::Fault(broken)), Some(Outcome::End)));
    assert_eq!(p.stage(), Stage::SeekHeader);
}

#[test]
fn machine_turns_a_stream_fault_into_a_transport_fault() {
    let mut p = parser(ErrorPolicy::Return, LineMode::Single);
    assert!(p.feed(line("@r1\n")).is_none());
    let broken = std::io::Error::new(std::io::ErrorKind::UnexpectedEof, "cut");
    match p.feed(LineRead::Fault(broken)) {
        Some(Outcome::Failed(FastqError::Io { source, ctx })) => {
            assert_eq!(source.kind(), std::io::ErrorKind::UnexpectedEof);
            assert_eq!(ctx, IoContext { byte_pos: 4, line_num: 1 });
        }
        other => panic!("expected a transport fault, got {:?}", other),
    }
    assert_eq!(p.stage(), Stage::SeekHeader);
}

#[test]
fn byte_position_stops_at_its_largest_value() {
    let mut p = parser(ErrorPolicy::Return, LineMode::Single);
    assert!(p.feed(LineRead::Data { raw_len: usize::MAX, text: "\n".to_string() }).is_none());
    assert!(p.feed(LineRead::Data { raw_len: usize::MAX, text: "\n".to_string() }).is_none());
    assert!(p.feed(LineRead::Data { raw_len: 7, text: "\n".to_string() }).is_none());
    assert_eq!(p.position().line_num, 3);
    assert_eq!(p.position().byte_pos, u64::MAX);
}

#[test]
fn position_counts_raw_bytes_and_lines() {
    let mut p = parser(ErrorPolicy::Return, LineMode::Single);
    assert_eq!(p.position(), IoContext { byte_pos: 0, line_num: 0 });
    assert!(p.feed(line("@r1\r\n")).is_none());
    assert_eq!(p.position(), IoContext { byte_pos: 5, line_num: 1 });
    assert!(p.feed(line("AC\n")).is_none());
    assert_eq!(p.position(), IoContext { byte_pos: 8, line_num: 2 });
    assert_eq!(p.options().line_mode, LineMode::Single);
}

#[test]
fn errors_carry_their_position() {
    let ctx = IoContext { byte_pos: 12, line_num: 3 };
    let e = FastqError::fmt_err(FormatError::MissingPlus, ctx);
    assert!(matches!(e, FastqError::Format { source: FormatError::MissingPlus, .. }));
    assert_eq!(e.ctx(), ctx);
    let e = FastqError::io_err(std::io::Error::new(std::io::ErrorKind::Other, "x"), ctx);
    assert!(matches!(e, FastqError::Io { .. }));
    assert_eq!(e.ctx(), ctx);
}

#[test]
fn record_length_is_that_of_its_sequence() {
    let r = FastqRecord {
        id: "r".to_string(),
        desc: None,
        seq: b"ACGTN".to_vec(),
        qual: b"!!!!!".to_vec(),
    };
    assert_eq!(r.len(), 5);
    assert!(!r.is_empty());
    let e = FastqRecord { id: String::new(), desc: None, seq: Vec::new(), qual: Vec::new() };
    assert_eq!(e.len(), 0);
    assert!(e.is_empty());
}

#[test]
fn gzip_is_told_by_its_first_two_bytes() {
    assert!(looks_like_gzip(&[0x1F, 0x8B]));
    assert!(looks_like_gzip(&[0x1F, 0x8B, 0x08, 0x00]));
    assert!(!looks_like_gzip(&[0x1F]));
    assert!(!looks_like_gzip(&[]));
    assert!(!looks_like_gzip(&[0x8B, 0x1F]));
    assert!(!looks_like_gzip(b"@r"));
}

#[test]
fn gz_extension_is_matched_exactly() {
    assert!(has_gz_extension(Some("gz")));
    assert!(!has_gz_extension(Some("GZ")));
    assert!(!has_gz_extension(Some("gzip")));
    assert!(!has_gz_extension(Some("g")));
    assert!(!has_gz_extension(Some("fastq")));
    assert!(!has_gz_extension(Some("")));
    assert!(!has_gz_extension(None));
}

#[test]
fn transport_is_chosen_by_extension_then_magic_then_mapping() {
    let gz: &[u8] = &[0x1F, 0x8B, 0x08];
    let plain: &[u8] = b"@r1";
    assert_eq!(select_transport(true, None, false), Transport::Gzip);
    assert_eq!(select_transport(true, Some(plain), true), Transport::Gzip);
    assert_eq!(select_transport(false, Some(gz), true), Transport::Gzip);
    assert_eq!(select_transport(false, Some(plain), true), Transport::Mapped);
    assert_eq!(select_transport(false, Some(plain), false), Transport::Buffered);
    assert_eq!(select_transport(false, None, false), Transport::Buffered);
    assert_eq!(select_transport(false, None, true), Transport::Mapped);
}
