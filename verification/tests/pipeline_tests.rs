use std::io::{Read, Write};

use turbotrim::parse::parse_records;
use turbotrim::serialize::serialize_records;
use turbotrim::{process, read_pairs, PipelineError, Record, TrimSide, TrimSpec};

fn gz(data: &[u8]) -> Vec<u8> {
    let mut e = flate2::write::GzEncoder::new(Vec::new(), flate2::Compression::default());
    e.write_all(data).unwrap();
    e.finish().unwrap()
}

fn gunzip(data: &[u8]) -> Vec<u8> {
    let mut d = flate2::bufread::MultiGzDecoder::new(data);
    let mut out = Vec::new();
    d.read_to_end(&mut out).unwrap();
    out
}

fn suffix(len: usize) -> TrimSpec {
    TrimSpec { len, side: TrimSide::Suffix }
}

#[test]
fn parse_groups_lines_into_records() {
    let text = b"@r1\nACGT\n+\nFFFF\n@r2\nGGCC\n+\nIIII\n".to_vec();
    let recs = parse_records(&text).unwrap();
    assert_eq!(recs.len(), 2);
    assert_eq!(recs[0].header, b"@r1".to_vec());
    assert_eq!(recs[0].seq, b"ACGT".to_vec());
    assert_eq!(recs[0].sep, b"+".to_vec());
    assert_eq!(recs[0].qual, b"FFFF".to_vec());
    assert_eq!(recs[1].header, b"@r2".to_vec());
    assert_eq!(recs[1].qual, b"IIII".to_vec());
}

#[test]
fn parse_rejects_stream_ending_mid_record() {
    let text = b"@r1\nACGT\n+\nFFFF\n@r2\nGGCC\n".to_vec();
    assert!(parse_records(&text).is_none());
}

#[test]
fn parse_of_empty_stream_is_empty() {
    let recs = parse_records(&Vec::new()).unwrap();
    assert_eq!(recs.len(), 0);
}

#[test]
fn serialize_then_parse_restores_records() {
    let recs = vec![
        Record {
            header: b"@r1".to_vec(),
            seq: b"ACGT".to_vec(),
            sep: b"+".to_vec(),
            qual: b"FFFF".to_vec(),
        },
        Record {
            header: b"@r2".to_vec(),
            seq: b"GG".to_vec(),
            sep: b"+".to_vec(),
            qual: b"II".to_vec(),
        },
    ];
    let bytes = serialize_records(&recs);
    assert_eq!(bytes, b"@r1\nACGT\n+\nFFFF\n@r2\nGG\n+\nII\n".to_vec());
    let back = parse_records(&bytes).unwrap();
    assert_eq!(back.len(), recs.len());
    for (x, y) in back.iter().zip(recs.iter()) {
        assert_eq!(x.header, y.header);
        assert_eq!(x.seq, y.seq);
        assert_eq!(x.sep, y.sep);
        assert_eq!(x.qual, y.qual);
    }
}

#[test]
fn read_pairs_pairs_records_by_position() {
    let a = gz(b"@a1\nAAAA\n+\nFFFF\n@a2\nCCCC\n+\nFFFF\n");
    let b = gz(b"@b1\nGGGG\n+\nIIII\n@b2\nTTTT\n+\nIIII\n");
    let chunks = read_pairs(&a, &b).unwrap();
    assert_eq!(chunks.len(), 2);
    assert_eq!(chunks[0].a.header, b"@a1".to_vec());
    assert_eq!(chunks[0].b.header, b"@b1".to_vec());
    assert_eq!(chunks[1].a.header, b"@a2".to_vec());
    assert_eq!(chunks[1].b.header, b"@b2".to_vec());
}

#[test]
fn mismatched_record_counts_fail() {
    let a = gz(b"@a1\nAAAA\n+\nFFFF\n@a2\nCCCC\n+\nFFFF\n");
    let b = gz(b"@b1\nGGGG\n+\nIIII\n");
    assert_eq!(read_pairs(&a, &b).unwrap_err(), PipelineError::CountMismatch);
    assert_eq!(process(&a, &b, &suffix(2)).unwrap_err(), PipelineError::CountMismatch);
}

#[test]
fn corrupt_stream_fails() {
    let good = gz(b"@a1\nAAAA\n+\nFFFF\n");
    let bad = b"this is not compressed".to_vec();
    assert_eq!(read_pairs(&bad, &good).unwrap_err(), PipelineError::CorruptInputA);
    assert_eq!(read_pairs(&good, &bad).unwrap_err(), PipelineError::CorruptInputB);
}

#[test]
fn undecodable_text_fails() {
    let good = gz(b"@a1\nAAAA\n+\nFFFF\n");
    let bad = gz(b"@a1\nAC\xFFT\n+\nFFFF\n");
    assert_eq!(read_pairs(&bad, &good).unwrap_err(), PipelineError::NotTextA);
    assert_eq!(read_pairs(&good, &bad).unwrap_err(), PipelineError::NotTextB);
    assert_eq!(process(&bad, &good, &suffix(2)).unwrap_err(), PipelineError::NotTextA);
    let stray_continuation = gz(b"@a1\n\x80AAA\n+\nFFFF\n");
    assert_eq!(read_pairs(&stray_continuation, &good).unwrap_err(), PipelineError::NotTextA);
    let truncated_sequence = gz(b"@a1\nAA\xC3\n+\nFFFF\n");
    assert_eq!(read_pairs(&truncated_sequence, &good).unwrap_err(), PipelineError::NotTextA);
}

#[test]
fn multi_byte_text_is_accepted() {
    let a = gz("@r\u{e9}1\nACGT\n+\nFFFF\n".as_bytes());
    let b = gz("@s\u{2603}1\nTTTT\n+\nJJJJ\n".as_bytes());
    let chunks = read_pairs(&a, &b).unwrap();
    assert_eq!(chunks.len(), 1);
    assert_eq!(chunks[0].a.header, "@r\u{e9}1".as_bytes().to_vec());
    assert_eq!(chunks[0].b.header, "@s\u{2603}1".as_bytes().to_vec());
}

#[test]
fn truncated_stream_fails() {
    let good = gz(b"@a1\nAAAA\n+\nFFFF\n");
    let bad = gz(b"@a1\nAAAA\n+\n");
    assert_eq!(read_pairs(&bad, &good).unwrap_err(), PipelineError::TruncatedInputA);
    assert_eq!(read_pairs(&good, &bad).unwrap_err(), PipelineError::TruncatedInputB);
}

#[test]
fn process_round_trip() {
    let a_text = b"@r1\nACGTACGTAC\n+\nFFFFFFFFFF\n@r2\nGGGGG\n+\nIIIII\n";
    let b_text = b"@s1\nTTTTTTTTTT\n+\nJJJJJJJJJJ\n@s2\nCC\n+\nKK\n";
    let (out_a, out_b) = process(&gz(a_text), &gz(b_text), &suffix(4)).unwrap();
    assert_eq!(gunzip(&out_a), b"@r1\nACGTAC\n+\nFFFFFF\n@r2\nG\n+\nI\n".to_vec());
    assert_eq!(gunzip(&out_b), b"@s1\nTTTTTT\n+\nJJJJJJ\n@s2\n\n+\n\n".to_vec());
    let recs_a = parse_records(&gunzip(&out_a)).unwrap();
    let recs_b = parse_records(&gunzip(&out_b)).unwrap();
    assert_eq!(recs_a.len(), 2);
    assert_eq!(recs_b.len(), 2);
}

#[test]
fn process_with_zero_trim_is_identity() {
    let a_text = b"@r1\nACGT\n+\nFFFF\n".to_vec();
    let b_text = b"@s1\nTTTT\n+\nJJJJ\n".to_vec();
    let (out_a, out_b) = process(&gz(&a_text), &gz(&b_text), &suffix(0)).unwrap();
    assert_eq!(gunzip(&out_a), a_text);
    assert_eq!(gunzip(&out_b), b_text);
}

#[test]
fn process_handles_multi_member_input() {
    let mut a = gz(b"@r1\nACGT\n+\nFFFF\n");
    a.extend_from_slice(&gz(b"@r2\nGGGG\n+\nIIII\n"));
    let b = gz(b"@s1\nTTTT\n+\nJJJJ\n@s2\nCCCC\n+\nKKKK\n");
    let (out_a, out_b) = process(&a, &b, &suffix(1)).unwrap();
    assert_eq!(gunzip(&out_a), b"@r1\nACG\n+\nFFF\n@r2\nGGG\n+\nIII\n".to_vec());
    assert_eq!(gunzip(&out_b), b"@s1\nTTT\n+\nJJJ\n@s2\nCCC\n+\nKKK\n".to_vec());
}
