//! The trim transform: remove a fixed number of bases from one end of the
//! sequence and quality lines of a record, clamped at the line length, with
//! header and separator lines untouched.

use vstd::prelude::*;

use crate::record::{clone_line, PairedChunk, Record, RecordV};

verus! {

/// Which end of the sequence and quality lines loses bases.
#[derive(Clone, Copy, PartialEq, Eq, Structural, Debug)]
pub enum TrimSide {
    /// Remove the bases from the tail of each line.
    Suffix,
    /// Remove the bases from the front of each line.
    Prefix,
}

/// How many bases to remove and from which end. Parsed once at startup,
/// immutable, shared read-only by every trim worker.
#[derive(Clone, Copy, PartialEq, Eq, Structural, Debug)]
pub struct TrimSpec {
    pub len: usize,
    pub side: TrimSide,
}

/// What trimming does to one line: keep all but the last `t.len` bytes for a
/// suffix trim, all but the first `t.len` bytes for a prefix trim, clamped to
/// the empty line when `t.len` reaches the line length.
pub open spec fn trim_line_spec(l: Seq<u8>, t: TrimSpec) -> Seq<u8> {
    match t.side {
        TrimSide::Suffix => {
            if t.len >= l.len() {
                Seq::empty()
            } else {
                l.take(l.len() - t.len)
            }
        },
        TrimSide::Prefix => {
            if t.len >= l.len() {
                Seq::empty()
            } else {
                l.skip(t.len as int)
            }
        },
    }
}

/// What trimming does to one record: sequence and quality lines trimmed the
/// same way, header and separator untouched.
pub open spec fn trim_record_spec(r: RecordV, t: TrimSpec) -> RecordV {
    RecordV {
        header: r.header,
        seq: trim_line_spec(r.seq, t),
        sep: r.sep,
        qual: trim_line_spec(r.qual, t),
    }
}

/// A whole run of records, trimmed record by record.
pub open spec fn trim_records_spec(rs: Seq<RecordV>, t: TrimSpec) -> Seq<RecordV> {
    rs.map_values(|r: RecordV| trim_record_spec(r, t))
}

/// Copy `l[from..to]` into a fresh vector.
fn copy_range(l: &Vec<u8>, from: usize, to: usize) -> (r: Vec<u8>)
    requires
        from <= to <= l@.len(),
    ensures
        r@ == l@.subrange(from as int, to as int),
{
    let mut r: Vec<u8> = Vec::new();
    let mut i: usize = from;
    while i < to
        invariant
            from <= i <= to <= l@.len(),
            r@ == l@.subrange(from as int, i as int),
        decreases to - i,
    {
        r.push(l[i]);
        assert(l@.subrange(from as int, i + 1 as int) == l@.subrange(from as int, i as int).push(
            l@[i as int],
        ));
        i = i + 1;
    }
    r
}

/// Trim one line according to `t`, clamped: a trim length at or beyond the
/// line length yields the empty line rather than an error.
pub fn trim_line(l: &Vec<u8>, t: &TrimSpec) -> (r: Vec<u8>)
    ensures
        r@ == trim_line_spec(l@, *t),
        r@.len() == if t.len >= l@.len() {
            0int
        } else {
            l@.len() - t.len
        },
{
    let n = l.len();
    let r = match t.side {
        TrimSide::Suffix => {
            if t.len >= n {
                copy_range(l, 0, 0)
            } else {
                copy_range(l, 0, n - t.len)
            }
        },
        TrimSide::Prefix => {
            if t.len >= n {
                copy_range(l, 0, 0)
            } else {
                copy_range(l, t.len, n)
            }
        },
    };
    assert(r@ =~= trim_line_spec(l@, *t));
    r
}

/// Trim one record: the sequence and quality lines lose `t.len` bases from
/// the configured end, the header and separator lines pass through unchanged.
pub fn trim_record(r: &Record, t: &TrimSpec) -> (out: Record)
    ensures
        out@ == trim_record_spec(r@, *t),
{
    Record {
        header: clone_line(&r.header),
        seq: trim_line(&r.seq, t),
        sep: clone_line(&r.sep),
        qual: trim_line(&r.qual, t),
    }
}

/// Trim both mates of one paired chunk. Pairing within the chunk is
/// preserved: mate A stays with mate B.
pub fn trim_chunk(c: &PairedChunk, t: &TrimSpec) -> (out: PairedChunk)
    ensures
        out.a@ == trim_record_spec(c.a@, *t),
        out.b@ == trim_record_spec(c.b@, *t),
{
    PairedChunk { a: trim_record(&c.a, t), b: trim_record(&c.b, t) }
}

/// Trim every chunk of a run, in order. Each output position holds the
/// trimmed chunk of the same input position, so pairing is preserved.
pub fn trim_pairs(chunks: &Vec<PairedChunk>, t: &TrimSpec) -> (out: Vec<PairedChunk>)
    ensures
        out@.len() == chunks@.len(),
        forall|i: int|
            0 <= i < chunks@.len() ==> (#[trigger] out@[i]).a@ == trim_record_spec(chunks@[i].a@, *t)
                && out@[i].b@ == trim_record_spec(chunks@[i].b@, *t),
{
    let mut out: Vec<PairedChunk> = Vec::new();
    let mut i: usize = 0;
    while i < chunks.len()
        invariant
            i <= chunks@.len(),
            out@.len() == i,
            forall|k: int|
                0 <= k < i ==> (#[trigger] out@[k]).a@ == trim_record_spec(chunks@[k].a@, *t)
                    && out@[k].b@ == trim_record_spec(chunks@[k].b@, *t),
        decreases chunks@.len() - i,
    {
        out.push(trim_chunk(&chunks[i], t));
        i = i + 1;
    }
    out
}

/// Trimming keeps the sequence and quality lines the same length, and that
/// length is the input length less the trim length, clamped at zero.
pub proof fn lemma_trim_lengths(r: RecordV, t: TrimSpec)
    ensures
        trim_record_spec(r, t).seq.len() == if t.len >= r.seq.len() {
            0int
        } else {
            r.seq.len() - t.len
        },
        trim_record_spec(r, t).qual.len() == if t.len >= r.qual.len() {
            0int
        } else {
            r.qual.len() - t.len
        },
        r.balanced() ==> trim_record_spec(r, t).balanced(),
{
}

/// Trimming preserves well-formedness: lines free of newlines stay free of
/// newlines, and balanced records stay balanced.
pub proof fn lemma_trim_wf(r: RecordV, t: TrimSpec)
    ensures
        r.lines_ok() ==> trim_record_spec(r, t).lines_ok(),
        r.wf() ==> trim_record_spec(r, t).wf(),
{
}

/// Identity law: a trim length of zero leaves every record unchanged.
pub proof fn lemma_trim_zero(r: RecordV, t: TrimSpec)
    requires
        t.len == 0,
    ensures
        trim_record_spec(r, t) == r,
{
    assert(trim_line_spec(r.seq, t) =~= r.seq);
    assert(trim_line_spec(r.qual, t) =~= r.qual);
}

/// Clamping law: a trim length at or beyond the line length empties the
/// sequence and quality lines instead of failing.
pub proof fn lemma_trim_all(r: RecordV, t: TrimSpec)
    requires
        t.len >= r.seq.len(),
        t.len >= r.qual.len(),
    ensures
        trim_record_spec(r, t).seq == Seq::<u8>::empty(),
        trim_record_spec(r, t).qual == Seq::<u8>::empty(),
        trim_record_spec(r, t).header == r.header,
        trim_record_spec(r, t).sep == r.sep,
{
}

} // verus!
