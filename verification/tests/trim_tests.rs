use turbotrim::{serialize_record, trim_chunk, trim_pairs, trim_record, PairedChunk, Record, TrimSide, TrimSpec};

fn record(header: &str, seq: &str, sep: &str, qual: &str) -> Record {
    Record {
        header: header.as_bytes().to_vec(),
        seq: seq.as_bytes().to_vec(),
        sep: sep.as_bytes().to_vec(),
        qual: qual.as_bytes().to_vec(),
    }
}

#[test]
fn suffix_trim_scenario() {
    let r = record("@r1", "ACGTACGTAC", "+", "FFFFFFFFFF");
    let t = TrimSpec { len: 4, side: TrimSide::Suffix };
    let out = trim_record(&r, &t);
    assert_eq!(out.header, b"@r1".to_vec());
    assert_eq!(out.seq, b"ACGTAC".to_vec());
    assert_eq!(out.sep, b"+".to_vec());
    assert_eq!(out.qual, b"FFFFFF".to_vec());
}

#[test]
fn prefix_trim_scenario() {
    let r = record("@r1", "ACGTACGTAC", "+", "0123456789");
    let t = TrimSpec { len: 4, side: TrimSide::Prefix };
    let out = trim_record(&r, &t);
    assert_eq!(out.seq, b"ACGTAC".to_vec());
    assert_eq!(out.qual, b"456789".to_vec());
    assert_eq!(out.header, b"@r1".to_vec());
    assert_eq!(out.sep, b"+".to_vec());
}

#[test]
fn zero_trim_is_identity() {
    let r = record("@x", "GATTACA", "+", "IIIIIII");
    for side in [TrimSide::Suffix, TrimSide::Prefix] {
        let t = TrimSpec { len: 0, side };
        let out = trim_record(&r, &t);
        assert_eq!(out.header, r.header);
        assert_eq!(out.seq, r.seq);
        assert_eq!(out.sep, r.sep);
        assert_eq!(out.qual, r.qual);
    }
}

#[test]
fn overlong_trim_empties_lines() {
    let r = record("@x", "GATTACA", "+", "IIIIIII");
    for side in [TrimSide::Suffix, TrimSide::Prefix] {
        for len in [7usize, 8, 1000] {
            let t = TrimSpec { len, side };
            let out = trim_record(&r, &t);
            assert_eq!(out.seq, Vec::<u8>::new());
            assert_eq!(out.qual, Vec::<u8>::new());
            assert_eq!(out.header, r.header);
            assert_eq!(out.sep, r.sep);
        }
    }
}

#[test]
fn trimmed_lengths_match() {
    for n in 0usize..12 {
        let seq: String = "ACGTACGTACGT".chars().take(n).collect();
        let qual: String = "FFFFFFFFFFFF".chars().take(n).collect();
        let r = record("@r", &seq, "+", &qual);
        for len in 0usize..14 {
            for side in [TrimSide::Suffix, TrimSide::Prefix] {
                let out = trim_record(&r, &TrimSpec { len, side });
                assert_eq!(out.seq.len(), out.qual.len());
                assert_eq!(out.seq.len(), n.saturating_sub(len));
            }
        }
    }
}

#[test]
fn trim_pairs_trims_every_chunk_in_order() {
    let chunks = vec![
        PairedChunk {
            a: record("@a1", "AAAACC", "+", "FFFFFF"),
            b: record("@b1", "GGGGTT", "+", "IIIIII"),
        },
        PairedChunk {
            a: record("@a2", "CCC", "+", "JJJ"),
            b: record("@b2", "TTT", "+", "KKK"),
        },
    ];
    let out = trim_pairs(&chunks, &TrimSpec { len: 2, side: TrimSide::Suffix });
    assert_eq!(out.len(), 2);
    assert_eq!(out[0].a.seq, b"AAAA".to_vec());
    assert_eq!(out[0].b.seq, b"GGGG".to_vec());
    assert_eq!(out[1].a.seq, b"C".to_vec());
    assert_eq!(out[1].b.seq, b"T".to_vec());
}

#[test]
fn serialized_record_joins_lines_with_trailing_newline() {
    let r = record("@r1", "ACGT", "+", "FFFF");
    assert_eq!(serialize_record(&r), b"@r1\nACGT\n+\nFFFF\n".to_vec());
}

#[test]
fn chunk_trim_keeps_mates_together() {
    let c = PairedChunk {
        a: record("@a", "AAAACC", "+", "FFFFFF"),
        b: record("@b", "GGGGTT", "+", "IIIIII"),
    };
    let t = TrimSpec { len: 2, side: TrimSide::Suffix };
    let out = trim_chunk(&c, &t);
    assert_eq!(out.a.header, b"@a".to_vec());
    assert_eq!(out.a.seq, b"AAAA".to_vec());
    assert_eq!(out.b.header, b"@b".to_vec());
    assert_eq!(out.b.seq, b"GGGG".to_vec());
}
