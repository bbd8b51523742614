//! The record model: one sequencing read as four text lines, and the paired
//! chunk that joins the two mates read at the same ordinal position.

use vstd::prelude::*;

verus! {

/// The newline byte that terminates every line of the 4-line record format.
pub const NL: u8 = 10;

/// One sequencing read: header, sequence, separator and quality line, each
/// held without its terminating newline.
#[derive(Debug)]
pub struct Record {
    pub header: Vec<u8>,
    pub seq: Vec<u8>,
    pub sep: Vec<u8>,
    pub qual: Vec<u8>,
}

/// The mathematical view of a record: its four lines as byte sequences.
pub ghost struct RecordV {
    pub header: Seq<u8>,
    pub seq: Seq<u8>,
    pub sep: Seq<u8>,
    pub qual: Seq<u8>,
}

impl View for Record {
    type V = RecordV;

    open spec fn view(&self) -> RecordV {
        RecordV { header: self.header@, seq: self.seq@, sep: self.sep@, qual: self.qual@ }
    }
}

/// A line may stand in the record format only if it holds no newline byte.
pub open spec fn line_ok(l: Seq<u8>) -> bool {
    forall|i: int| 0 <= i < l.len() ==> l[i] != NL
}

impl RecordV {
    /// All four lines are free of newline bytes, so the record can be
    /// written out and read back unchanged.
    pub open spec fn lines_ok(self) -> bool {
        line_ok(self.header) && line_ok(self.seq) && line_ok(self.sep) && line_ok(self.qual)
    }

    /// The record invariant of the format: sequence and quality line have
    /// equal length.
    pub open spec fn balanced(self) -> bool {
        self.seq.len() == self.qual.len()
    }

    /// A well-formed record: writable lines whose sequence and quality
    /// lengths agree.
    pub open spec fn wf(self) -> bool {
        self.lines_ok() && self.balanced()
    }
}

/// One mate-A/mate-B record pair, read at the same ordinal position from the
/// two input streams. Ownership transfers whole between pipeline stages.
#[derive(Debug)]
pub struct PairedChunk {
    pub a: Record,
    pub b: Record,
}

/// The view of a vector of records, record by record.
pub open spec fn recs_view(rs: Seq<Record>) -> Seq<RecordV> {
    rs.map_values(|r: Record| r@)
}

/// Copy one line byte for byte.
pub fn clone_line(l: &Vec<u8>) -> (r: Vec<u8>)
    ensures
        r@ == l@,
{
    let mut r: Vec<u8> = Vec::new();
    let mut i: usize = 0;
    while i < l.len()
        invariant
            i <= l@.len(),
            r@ == l@.take(i as int),
        decreases l@.len() - i,
    {
        r.push(l[i]);
        assert(l@.take(i + 1 as int) == l@.take(i as int).push(l@[i as int]));
        i = i + 1;
    }
    assert(r@ =~= l@);
    r
}

/// Copy one record field for field.
pub fn clone_record(r: &Record) -> (out: Record)
    ensures
        out@ == r@,
{
    Record {
        header: clone_line(&r.header),
        seq: clone_line(&r.seq),
        sep: clone_line(&r.sep),
        qual: clone_line(&r.qual),
    }
}

} // verus!
