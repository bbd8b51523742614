//! Lexing one decoded stream into records: split the byte stream into
//! newline-terminated lines, then group every four consecutive lines into one
//! record. A stream whose line count is not a multiple of four ends
//! mid-record and is rejected.

use vstd::prelude::*;

use crate::record::{clone_line, line_ok, recs_view, Record, RecordV, NL};

verus! {

/// Length of the first line of `b`: the number of bytes before the first
/// newline, or all of `b` when it holds none.
pub open spec fn line_len(b: Seq<u8>) -> nat
    decreases b.len(),
{
    if b.len() == 0 || b[0] == NL {
        0
    } else {
        1 + line_len(b.skip(1))
    }
}

/// The lines of `b`: maximal newline-free runs, with each newline consumed as
/// a terminator. A final run without a terminator still counts as a line, and
/// an empty stream has no lines.
pub open spec fn lines_spec(b: Seq<u8>) -> Seq<Seq<u8>>
    decreases b.len(),
{
    if b.len() == 0 {
        Seq::empty()
    } else {
        let n = line_len(b) as int;
        if n < b.len() {
            seq![b.take(n)] + lines_spec(b.skip(n + 1))
        } else {
            seq![b]
        }
    }
}

/// Every four consecutive lines form one record, in field order.
pub open spec fn group_lines(ls: Seq<Seq<u8>>) -> Seq<RecordV>
    decreases ls.len(),
{
    if ls.len() < 4 {
        Seq::empty()
    } else {
        seq![RecordV { header: ls[0], seq: ls[1], sep: ls[2], qual: ls[3] }] + group_lines(
            ls.skip(4),
        )
    }
}

/// What parsing one decoded stream yields: its records, or nothing when the
/// stream ends mid-record.
pub open spec fn parse_spec(b: Seq<u8>) -> Option<Seq<RecordV>> {
    if lines_spec(b).len() % 4 == 0 {
        Some(group_lines(lines_spec(b)))
    } else {
        None
    }
}

/// The view of a vector of lines, line by line.
pub open spec fn lines_view(ls: Seq<Vec<u8>>) -> Seq<Seq<u8>> {
    ls.map_values(|l: Vec<u8>| l@)
}

/// A newline-free sequence is one whole line.
pub proof fn lemma_line_len_no_nl(l: Seq<u8>)
    requires
        line_ok(l),
    ensures
        line_len(l) == l.len(),
    decreases l.len(),
{
    if l.len() == 0 {
    } else {
        assert(l[0] != NL);
        assert(line_ok(l.skip(1)));
        lemma_line_len_no_nl(l.skip(1));
    }
}

/// A newline-free line followed by a newline is the first line of the stream.
pub proof fn lemma_line_len_prefix(l: Seq<u8>, rest: Seq<u8>)
    requires
        line_ok(l),
    ensures
        line_len(l + seq![NL] + rest) == l.len(),
    decreases l.len(),
{
    let b = l + seq![NL] + rest;
    if l.len() == 0 {
        assert(b[0] == NL);
    } else {
        assert(b[0] == l[0]);
        assert(b.skip(1) =~= l.skip(1) + seq![NL] + rest);
        assert(line_ok(l.skip(1)));
        lemma_line_len_prefix(l.skip(1), rest);
    }
}

/// Consuming one terminated line from the front of a stream: its lines are
/// that line followed by the lines of the remainder.
pub proof fn lemma_lines_cons(l: Seq<u8>, rest: Seq<u8>)
    requires
        line_ok(l),
    ensures
        lines_spec(l + seq![NL] + rest) == seq![l] + lines_spec(rest),
{
    let b = l + seq![NL] + rest;
    lemma_line_len_prefix(l, rest);
    assert(b.len() > 0);
    assert(line_len(b) < b.len());
    assert(b.take(l.len() as int) =~= l);
    assert(b.skip(l.len() as int + 1) =~= rest);
}

/// A nonempty stream without any newline is one single line.
pub proof fn lemma_lines_single(l: Seq<u8>)
    requires
        line_ok(l),
        l.len() > 0,
    ensures
        lines_spec(l) == seq![l],
{
    lemma_line_len_no_nl(l);
}

/// Split a byte stream into its lines.
pub fn split_lines(b: &Vec<u8>) -> (r: Vec<Vec<u8>>)
    ensures
        lines_view(r@) == lines_spec(b@),
        forall|j: int| 0 <= j < r@.len() ==> line_ok(#[trigger] r@[j]@),
{
    let mut out: Vec<Vec<u8>> = Vec::new();
    let mut cur: Vec<u8> = Vec::new();
    let mut start: usize = 0;
    let mut i: usize = 0;
    proof {
        assert(b@.skip(0) =~= b@);
        assert(cur@ =~= b@.subrange(0, 0));
        assert(lines_view(out@) + lines_spec(b@) =~= lines_spec(b@));
    }
    while i < b.len()
        invariant
            start <= i <= b@.len(),
            cur@ == b@.subrange(start as int, i as int),
            line_ok(cur@),
            forall|j: int| 0 <= j < out@.len() ==> line_ok(#[trigger] out@[j]@),
            lines_spec(b@) == lines_view(out@) + lines_spec(b@.skip(start as int)),
        decreases b@.len() - i,
    {
        let c = b[i];
        if c == NL {
            proof {
                assert(b@.skip(start as int) =~= cur@ + seq![NL] + b@.skip(i + 1));
                lemma_lines_cons(cur@, b@.skip(i + 1));
                assert(lines_view(out@.push(cur)) =~= lines_view(out@) + seq![cur@]);
                assert(lines_view(out@) + (seq![cur@] + lines_spec(b@.skip(i + 1))) =~= (
                lines_view(out@) + seq![cur@]) + lines_spec(b@.skip(i + 1)));
            }
            out.push(cur);
            cur = Vec::new();
            i = i + 1;
            start = i;
            assert(cur@ =~= b@.subrange(start as int, i as int));
        } else {
            cur.push(c);
            proof {
                assert(cur@ =~= b@.subrange(start as int, i + 1));
                assert forall|k: int| 0 <= k < cur@.len() implies cur@[k] != NL by {}
            }
            i = i + 1;
        }
    }
    if cur.len() > 0 {
        proof {
            assert(b@.skip(start as int) =~= cur@);
            lemma_lines_single(cur@);
            assert(lines_view(out@.push(cur)) =~= lines_view(out@) + seq![cur@]);
        }
        out.push(cur);
    } else {
        proof {
            assert(b@.skip(start as int) =~= Seq::<u8>::empty());
            assert(lines_spec(b@) =~= lines_view(out@));
        }
    }
    out
}

/// Group a stream's lines into records: exactly four lines per record, or
/// nothing when the line count is not a multiple of four.
pub fn parse_records(b: &Vec<u8>) -> (r: Option<Vec<Record>>)
    ensures
        match r {
            Some(recs) => {
                &&& parse_spec(b@) == Some(recs_view(recs@))
                &&& forall|i: int| 0 <= i < recs@.len() ==> (#[trigger] recs@[i]@).lines_ok()
            },
            None => parse_spec(b@) is None,
        },
{
    let lines = split_lines(b);
    let ghost ls = lines_view(lines@);
    if lines.len() % 4 != 0 {
        return None;
    }
    let mut recs: Vec<Record> = Vec::new();
    let mut i: usize = 0;
    proof {
        assert(ls.skip(0) =~= ls);
        assert(recs_view(recs@) + group_lines(ls) =~= group_lines(ls));
    }
    while i < lines.len()
        invariant
            i <= lines@.len(),
            i % 4 == 0,
            lines@.len() % 4 == 0,
            ls == lines_view(lines@),
            forall|j: int| 0 <= j < lines@.len() ==> line_ok(#[trigger] lines@[j]@),
            group_lines(ls) == recs_view(recs@) + group_lines(ls.skip(i as int)),
            forall|k: int| 0 <= k < recs@.len() ==> (#[trigger] recs@[k]@).lines_ok(),
        decreases lines@.len() - i,
    {
        assert(i + 4 <= lines@.len());
        let rec = Record {
            header: clone_line(&lines[i]),
            seq: clone_line(&lines[i + 1]),
            sep: clone_line(&lines[i + 2]),
            qual: clone_line(&lines[i + 3]),
        };
        proof {
            let rest = ls.skip(i as int);
            assert(rest.len() >= 4);
            assert(rest[0] == ls[i as int] && rest[1] == ls[i + 1] && rest[2] == ls[i + 2]
                && rest[3] == ls[i + 3]);
            assert(rest.skip(4) =~= ls.skip(i + 4));
            assert(rec@ == RecordV { header: rest[0], seq: rest[1], sep: rest[2], qual: rest[3] });
            assert(recs_view(recs@.push(rec)) =~= recs_view(recs@) + seq![rec@]);
            assert(recs_view(recs@) + (seq![rec@] + group_lines(ls.skip(i + 4))) =~= (recs_view(
                recs@,
            ) + seq![rec@]) + group_lines(ls.skip(i + 4)));
        }
        recs.push(rec);
        i = i + 4;
    }
    proof {
        assert(ls.skip(i as int) =~= Seq::<Seq<u8>>::empty());
        assert(group_lines(ls) =~= recs_view(recs@));
    }
    Some(recs)
}

} // verus!
