//! The orchestrated run over in-memory streams: decode both mates, lex them
//! into records, pair them position by position, trim every pair, and
//! re-encode each mate's records. Unequal record counts between the two
//! mates fail the run rather than silently truncating to the shorter one.

use vstd::prelude::*;

use crate::gzip::{gzip_decode, gzip_encode, inflate_of};
use crate::parse::{parse_records, parse_spec};
use crate::record::{clone_record, recs_view, PairedChunk, Record, RecordV};
use crate::serialize::{lemma_serialize_parse, records_bytes, serialize_records};
use crate::text::{check_utf8, is_utf8};
use crate::trim::{lemma_trim_wf, trim_pairs, trim_record_spec, trim_records_spec, TrimSpec};

verus! {

/// Why a run failed. One abort reason is surfaced per run; the first fatal
/// condition found wins, with mate A's stream examined before mate B's.
#[derive(Clone, Copy, PartialEq, Eq, Structural, Debug)]
pub enum PipelineError {
    /// Mate A's input is not a well-formed compressed stream.
    CorruptInputA,
    /// Mate B's input is not a well-formed compressed stream.
    CorruptInputB,
    /// Mate A's decoded stream holds bytes that cannot be decoded as text.
    NotTextA,
    /// Mate B's decoded stream holds bytes that cannot be decoded as text.
    NotTextB,
    /// Mate A's stream ends mid-record: its line count is not a multiple of
    /// four.
    TruncatedInputA,
    /// Mate B's stream ends mid-record.
    TruncatedInputB,
    /// The two streams hold unequal record counts.
    CountMismatch,
}

/// What one input stream holds: its records, decoded and lexed, or nothing
/// when decoding fails, when the decoded stream does not decode as text, or
/// when lexing fails.
pub open spec fn source_records(b: Seq<u8>) -> Option<Seq<RecordV>> {
    match inflate_of(b) {
        Some(d) => if is_utf8(d) {
            parse_spec(d)
        } else {
            None
        },
        None => None,
    }
}

/// Decode and lex both mates and pair their records position by position:
/// the Nth chunk holds the Nth record of each stream.
pub fn read_pairs(b1: &Vec<u8>, b2: &Vec<u8>) -> (r: Result<Vec<PairedChunk>, PipelineError>)
    ensures
        match r {
            Ok(chunks) => {
                &&& source_records(b1@) matches Some(rs1)
                &&& source_records(b2@) matches Some(rs2)
                &&& rs1.len() == rs2.len()
                &&& chunks@.len() == rs1.len()
                &&& forall|i: int|
                    0 <= i < chunks@.len() ==> (#[trigger] chunks@[i]).a@ == rs1[i]
                        && chunks@[i].b@ == rs2[i]
                &&& forall|i: int|
                    0 <= i < chunks@.len() ==> (#[trigger] chunks@[i]).a@.lines_ok()
                        && chunks@[i].b@.lines_ok()
            },
            Err(e) => {
                &&& (e == PipelineError::CorruptInputA <==> inflate_of(b1@) is None)
                &&& (e == PipelineError::NotTextA <==> inflate_of(b1@) is Some
                    && !is_utf8(inflate_of(b1@)->0))
                &&& (e == PipelineError::TruncatedInputA <==> inflate_of(b1@) is Some
                    && is_utf8(inflate_of(b1@)->0) && parse_spec(inflate_of(b1@)->0) is None)
                &&& (e == PipelineError::CorruptInputB <==> source_records(b1@) is Some
                    && inflate_of(b2@) is None)
                &&& (e == PipelineError::NotTextB <==> source_records(b1@) is Some
                    && inflate_of(b2@) is Some && !is_utf8(inflate_of(b2@)->0))
                &&& (e == PipelineError::TruncatedInputB <==> source_records(b1@) is Some
                    && inflate_of(b2@) is Some && is_utf8(inflate_of(b2@)->0) && parse_spec(
                    inflate_of(b2@)->0,
                ) is None)
                &&& (e == PipelineError::CountMismatch <==> source_records(b1@) is Some
                    && source_records(b2@) is Some && source_records(b1@)->0.len()
                    != source_records(b2@)->0.len())
            },
        },
{
    let d1 = match gzip_decode(b1) {
        Ok(v) => v,
        Err(_) => {
            return Err(PipelineError::CorruptInputA);
        },
    };
    if !check_utf8(&d1) {
        return Err(PipelineError::NotTextA);
    }
    let recs1 = match parse_records(&d1) {
        Some(v) => v,
        None => {
            return Err(PipelineError::TruncatedInputA);
        },
    };
    let d2 = match gzip_decode(b2) {
        Ok(v) => v,
        Err(_) => {
            return Err(PipelineError::CorruptInputB);
        },
    };
    if !check_utf8(&d2) {
        return Err(PipelineError::NotTextB);
    }
    let recs2 = match parse_records(&d2) {
        Some(v) => v,
        None => {
            return Err(PipelineError::TruncatedInputB);
        },
    };
    if recs1.len() != recs2.len() {
        return Err(PipelineError::CountMismatch);
    }
    let mut chunks: Vec<PairedChunk> = Vec::new();
    let mut i: usize = 0;
    while i < recs1.len()
        invariant
            i <= recs1@.len(),
            recs1@.len() == recs2@.len(),
            chunks@.len() == i,
            forall|k: int|
                0 <= k < i ==> (#[trigger] chunks@[k]).a@ == recs1@[k]@ && chunks@[k].b@
                    == recs2@[k]@,
        decreases recs1@.len() - i,
    {
        chunks.push(PairedChunk { a: clone_record(&recs1[i]), b: clone_record(&recs2[i]) });
        i = i + 1;
    }
    proof {
        assert(source_records(b1@) == Some(recs_view(recs1@)));
        assert(source_records(b2@) == Some(recs_view(recs2@)));
        assert(forall|k: int|
            0 <= k < chunks@.len() ==> (#[trigger] chunks@[k]).a@ == recs_view(recs1@)[k]
                && chunks@[k].b@ == recs_view(recs2@)[k]);
    }
    Ok(chunks)
}

/// Pairing invariant law: trimming a run record by record keeps the two
/// mates aligned — both trimmed runs have the same length, and the record at
/// every position of each output is the trim of the record at the same
/// ordinal position of its own input.
pub proof fn lemma_pairing(rs1: Seq<RecordV>, rs2: Seq<RecordV>, t: TrimSpec)
    requires
        rs1.len() == rs2.len(),
    ensures
        trim_records_spec(rs1, t).len() == trim_records_spec(rs2, t).len(),
        forall|i: int|
            0 <= i < rs1.len() ==> #[trigger] trim_records_spec(rs1, t)[i] == trim_record_spec(
                rs1[i],
                t,
            ) && trim_records_spec(rs2, t)[i] == trim_record_spec(rs2[i], t),
{
}

/// One whole run over in-memory streams: decode, pair, trim, re-encode.
/// The run succeeds if and only if both inputs decode and lex and their
/// record counts agree; on success each output stream decodes back to the
/// byte-for-byte serialization of its mate's trimmed records, in input
/// order, and that serialization parses back to exactly the trimmed records
/// — the record count is preserved.
pub fn process(b1: &Vec<u8>, b2: &Vec<u8>, t: &TrimSpec) -> (r: Result<
    (Vec<u8>, Vec<u8>),
    PipelineError,
>)
    ensures
        source_records(b1@) is Some && source_records(b2@) is Some && source_records(b1@)->0.len()
            == source_records(b2@)->0.len() ==> r is Ok,
        match r {
            Ok(outs) => {
                &&& source_records(b1@) matches Some(rs1)
                &&& source_records(b2@) matches Some(rs2)
                &&& rs1.len() == rs2.len()
                &&& inflate_of(outs.0@) == Some(records_bytes(trim_records_spec(rs1, *t)))
                &&& inflate_of(outs.1@) == Some(records_bytes(trim_records_spec(rs2, *t)))
                &&& parse_spec(records_bytes(trim_records_spec(rs1, *t))) == Some(
                    trim_records_spec(rs1, *t),
                )
                &&& parse_spec(records_bytes(trim_records_spec(rs2, *t))) == Some(
                    trim_records_spec(rs2, *t),
                )
            },
            Err(e) => {
                &&& (e == PipelineError::CorruptInputA <==> inflate_of(b1@) is None)
                &&& (e == PipelineError::NotTextA <==> inflate_of(b1@) is Some
                    && !is_utf8(inflate_of(b1@)->0))
                &&& (e == PipelineError::TruncatedInputA <==> inflate_of(b1@) is Some
                    && is_utf8(inflate_of(b1@)->0) && parse_spec(inflate_of(b1@)->0) is None)
                &&& (e == PipelineError::CorruptInputB <==> source_records(b1@) is Some
                    && inflate_of(b2@) is None)
                &&& (e == PipelineError::NotTextB <==> source_records(b1@) is Some
                    && inflate_of(b2@) is Some && !is_utf8(inflate_of(b2@)->0))
                &&& (e == PipelineError::TruncatedInputB <==> source_records(b1@) is Some
                    && inflate_of(b2@) is Some && is_utf8(inflate_of(b2@)->0) && parse_spec(
                    inflate_of(b2@)->0,
                ) is None)
                &&& (e == PipelineError::CountMismatch <==> source_records(b1@) is Some
                    && source_records(b2@) is Some && source_records(b1@)->0.len()
                    != source_records(b2@)->0.len())
            },
        },
{
    let chunks = match read_pairs(b1, b2) {
        Ok(v) => v,
        Err(e) => {
            return Err(e);
        },
    };
    let ghost rs1 = source_records(b1@)->0;
    let ghost rs2 = source_records(b2@)->0;
    let trimmed = trim_pairs(&chunks, t);
    let mut recs_a: Vec<Record> = Vec::new();
    let mut recs_b: Vec<Record> = Vec::new();
    let mut i: usize = 0;
    while i < trimmed.len()
        invariant
            i <= trimmed@.len(),
            recs_a@.len() == i,
            recs_b@.len() == i,
            forall|k: int| 0 <= k < i ==> (#[trigger] recs_a@[k])@ == trimmed@[k].a@,
            forall|k: int| 0 <= k < i ==> (#[trigger] recs_b@[k])@ == trimmed@[k].b@,
        decreases trimmed@.len() - i,
    {
        recs_a.push(clone_record(&trimmed[i].a));
        recs_b.push(clone_record(&trimmed[i].b));
        i = i + 1;
    }
    proof {
        assert(recs_view(recs_a@) =~= trim_records_spec(rs1, *t));
        assert(recs_view(recs_b@) =~= trim_records_spec(rs2, *t));
        assert forall|k: int| 0 <= k < rs1.len() implies (#[trigger] trim_records_spec(rs1, *t)[k])
            .lines_ok() by {
            lemma_trim_wf(rs1[k], *t);
        }
        assert forall|k: int| 0 <= k < rs2.len() implies (#[trigger] trim_records_spec(rs2, *t)[k])
            .lines_ok() by {
            lemma_trim_wf(rs2[k], *t);
        }
        lemma_serialize_parse(trim_records_spec(rs1, *t));
        lemma_serialize_parse(trim_records_spec(rs2, *t));
    }
    let bytes_a = serialize_records(&recs_a);
    let bytes_b = serialize_records(&recs_b);
    Ok((gzip_encode(&bytes_a), gzip_encode(&bytes_b)))
}

} // verus!
