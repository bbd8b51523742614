//! The naming convention on input and output paths: every file the pipeline
//! reads or writes must carry a compressed-read-file suffix, checked before
//! any processing starts.

use vstd::prelude::*;

verus! {

/// `suf` is a suffix of `s`.
pub open spec fn ends_with(s: Seq<u8>, suf: Seq<u8>) -> bool {
    suf.len() <= s.len() && s.skip(s.len() - suf.len() as int) == suf
}

pub open spec fn fastq_gz_suffix() -> Seq<u8> {
    seq![102u8, 97u8, 115u8, 116u8, 113u8, 46u8, 103u8, 122u8]
}

pub open spec fn fq_gz_suffix() -> Seq<u8> {
    seq![102u8, 113u8, 46u8, 103u8, 122u8]
}

/// A path follows the convention when it ends in either accepted
/// compressed-read-file suffix.
pub open spec fn is_fastq_name(s: Seq<u8>) -> bool {
    ends_with(s, fastq_gz_suffix()) || ends_with(s, fq_gz_suffix())
}

fn has_suffix(name: &Vec<u8>, suf: &Vec<u8>) -> (r: bool)
    ensures
        r == ends_with(name@, suf@),
{
    if suf.len() > name.len() {
        return false;
    }
    let off = name.len() - suf.len();
    let mut i: usize = 0;
    while i < suf.len()
        invariant
            off + suf@.len() == name@.len(),
            name@.len() <= usize::MAX,
            i <= suf@.len(),
            forall|k: int| 0 <= k < i ==> name@[off + k] == suf@[k],
        decreases suf@.len() - i,
    {
        if name[off + i] != suf[i] {
            proof {
                assert(name@.skip(off as int)[i as int] != suf@[i as int]);
            }
            return false;
        }
        i = i + 1;
    }
    proof {
        assert(name@.skip(off as int) =~= suf@);
    }
    true
}

/// Whether a path name (as bytes) carries the compressed-read-file naming
/// convention the pipeline accepts.
pub fn is_fastq(name: &Vec<u8>) -> (r: bool)
    ensures
        r == is_fastq_name(name@),
{
    let mut suf1: Vec<u8> = Vec::new();
    suf1.push(102u8);
    suf1.push(97u8);
    suf1.push(115u8);
    suf1.push(116u8);
    suf1.push(113u8);
    suf1.push(46u8);
    suf1.push(103u8);
    suf1.push(122u8);
    let mut suf2: Vec<u8> = Vec::new();
    suf2.push(102u8);
    suf2.push(113u8);
    suf2.push(46u8);
    suf2.push(103u8);
    suf2.push(122u8);
    proof {
        assert(suf1@ =~= fastq_gz_suffix());
        assert(suf2@ =~= fq_gz_suffix());
    }
    let r1 = has_suffix(name, &suf1);
    let r2 = has_suffix(name, &suf2);
    r1 || r2
}

} // verus!
