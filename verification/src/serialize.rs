//! Writing records back out: the four lines of each record, each terminated
//! by a newline, concatenated in record order — and the proof that parsing
//! inverts this, so a written stream decodes to exactly the records that
//! produced it.

use vstd::prelude::*;

use crate::parse::{group_lines, lemma_lines_cons, lines_spec, parse_spec};
use crate::record::{recs_view, Record, RecordV, NL};

verus! {

/// The bytes one record occupies on the wire.
pub open spec fn record_bytes(r: RecordV) -> Seq<u8> {
    r.header + seq![NL] + r.seq + seq![NL] + r.sep + seq![NL] + r.qual + seq![NL]
}

/// The bytes a whole run of records occupies on the wire.
pub open spec fn records_bytes(rs: Seq<RecordV>) -> Seq<u8>
    decreases rs.len(),
{
    if rs.len() == 0 {
        Seq::empty()
    } else {
        record_bytes(rs[0]) + records_bytes(rs.skip(1))
    }
}

pub proof fn lemma_records_bytes_push(rs: Seq<RecordV>, r: RecordV)
    ensures
        records_bytes(rs.push(r)) == records_bytes(rs) + record_bytes(r),
    decreases rs.len(),
{
    if rs.len() == 0 {
        assert(rs.push(r)[0] == r);
        assert(rs.push(r).skip(1) =~= Seq::<RecordV>::empty());
        assert(records_bytes(rs.push(r).skip(1)) == Seq::<u8>::empty());
        assert(records_bytes(rs.push(r)) == record_bytes(r) + Seq::<u8>::empty());
        assert(records_bytes(rs.push(r)) =~= records_bytes(rs) + record_bytes(r));
    } else {
        assert(rs.push(r).skip(1) =~= rs.skip(1).push(r));
        lemma_records_bytes_push(rs.skip(1), r);
        assert(rs.push(r)[0] == rs[0]);
        assert(record_bytes(rs[0]) + (records_bytes(rs.skip(1)) + record_bytes(r)) =~= (
        record_bytes(rs[0]) + records_bytes(rs.skip(1))) + record_bytes(r));
    }
}

/// Append `l` and a newline terminator to `out`.
fn push_line(out: &mut Vec<u8>, l: &Vec<u8>)
    ensures
        final(out)@ == old(out)@ + l@ + seq![NL],
{
    let mut i: usize = 0;
    while i < l.len()
        invariant
            i <= l@.len(),
            out@ == old(out)@ + l@.take(i as int),
        decreases l@.len() - i,
    {
        out.push(l[i]);
        assert(old(out)@ + l@.take(i + 1) =~= (old(out)@ + l@.take(i as int)).push(l@[i as int]));
        i = i + 1;
    }
    out.push(NL);
    assert(out@ =~= old(out)@ + l@ + seq![NL]);
}

/// Append one record's four terminated lines to `out`.
pub fn append_record(out: &mut Vec<u8>, r: &Record)
    ensures
        final(out)@ == old(out)@ + record_bytes(r@),
{
    push_line(out, &r.header);
    push_line(out, &r.seq);
    push_line(out, &r.sep);
    push_line(out, &r.qual);
    assert(out@ =~= old(out)@ + record_bytes(r@));
}

/// Serialize one record: newline-joined lines with a trailing newline.
pub fn serialize_record(r: &Record) -> (out: Vec<u8>)
    ensures
        out@ == record_bytes(r@),
{
    let mut out: Vec<u8> = Vec::new();
    append_record(&mut out, r);
    assert(out@ =~= record_bytes(r@));
    out
}

/// Serialize a whole run of records in order.
pub fn serialize_records(rs: &Vec<Record>) -> (out: Vec<u8>)
    ensures
        out@ == records_bytes(recs_view(rs@)),
{
    let mut out: Vec<u8> = Vec::new();
    let ghost view = recs_view(rs@);
    let mut i: usize = 0;
    while i < rs.len()
        invariant
            i <= rs@.len(),
            view == recs_view(rs@),
            out@ == records_bytes(view.take(i as int)),
        decreases rs@.len() - i,
    {
        append_record(&mut out, &rs[i]);
        proof {
            assert(view.take(i + 1) =~= view.take(i as int).push(view[i as int]));
            lemma_records_bytes_push(view.take(i as int), view[i as int]);
            assert(view[i as int] == rs@[i as int]@);
        }
        i = i + 1;
    }
    assert(view.take(view.len() as int) =~= view);
    out
}

/// The lines of a written run: four per record, in field order.
pub open spec fn rec_lines(rs: Seq<RecordV>) -> Seq<Seq<u8>>
    decreases rs.len(),
{
    if rs.len() == 0 {
        Seq::empty()
    } else {
        seq![rs[0].header, rs[0].seq, rs[0].sep, rs[0].qual] + rec_lines(rs.skip(1))
    }
}

/// Splitting a written run into lines yields each record's four lines in
/// order.
pub proof fn lemma_lines_of_records(rs: Seq<RecordV>)
    requires
        forall|i: int| 0 <= i < rs.len() ==> (#[trigger] rs[i]).lines_ok(),
    ensures
        lines_spec(records_bytes(rs)) == rec_lines(rs),
    decreases rs.len(),
{
    if rs.len() == 0 {
    } else {
        let r = rs[0];
        let rest = records_bytes(rs.skip(1));
        assert(rs[0].lines_ok());
        assert(records_bytes(rs) =~= r.header + seq![NL] + (r.seq + seq![NL] + (r.sep + seq![NL] + (
        r.qual + seq![NL] + rest))));
        lemma_lines_cons(r.header, r.seq + seq![NL] + (r.sep + seq![NL] + (r.qual + seq![NL]
            + rest)));
        lemma_lines_cons(r.seq, r.sep + seq![NL] + (r.qual + seq![NL] + rest));
        lemma_lines_cons(r.sep, r.qual + seq![NL] + rest);
        lemma_lines_cons(r.qual, rest);
        assert(forall|i: int| 0 <= i < rs.skip(1).len() ==> (#[trigger] rs.skip(1)[i]).lines_ok());
        lemma_lines_of_records(rs.skip(1));
        assert(seq![r.header] + (seq![r.seq] + (seq![r.sep] + (seq![r.qual] + rec_lines(rs.skip(1)))))
            =~= seq![r.header, r.seq, r.sep, r.qual] + rec_lines(rs.skip(1)));
    }
}

pub proof fn lemma_rec_lines_len(rs: Seq<RecordV>)
    ensures
        rec_lines(rs).len() == 4 * rs.len(),
    decreases rs.len(),
{
    if rs.len() == 0 {
    } else {
        lemma_rec_lines_len(rs.skip(1));
    }
}

/// Grouping a written run's lines back into records restores the records.
pub proof fn lemma_group_rec_lines(rs: Seq<RecordV>)
    ensures
        group_lines(rec_lines(rs)) == rs,
    decreases rs.len(),
{
    if rs.len() == 0 {
        assert(group_lines(rec_lines(rs)) =~= rs);
    } else {
        let ls = rec_lines(rs);
        lemma_rec_lines_len(rs);
        assert(ls.len() >= 4);
        assert(ls[0] == rs[0].header && ls[1] == rs[0].seq && ls[2] == rs[0].sep && ls[3]
            == rs[0].qual);
        assert(ls.skip(4) =~= rec_lines(rs.skip(1)));
        lemma_group_rec_lines(rs.skip(1));
        assert(RecordV { header: ls[0], seq: ls[1], sep: ls[2], qual: ls[3] } == rs[0]);
        assert(seq![rs[0]] + rs.skip(1) =~= rs);
    }
}

/// Round-trip law: a written run of well-formed records parses back to
/// exactly those records — the record count is preserved and only the lines
/// themselves decide the bytes.
pub proof fn lemma_serialize_parse(rs: Seq<RecordV>)
    requires
        forall|i: int| 0 <= i < rs.len() ==> (#[trigger] rs[i]).lines_ok(),
    ensures
        parse_spec(records_bytes(rs)) == Some(rs),
{
    lemma_lines_of_records(rs);
    lemma_rec_lines_len(rs);
    lemma_group_rec_lines(rs);
}

} // verus!
