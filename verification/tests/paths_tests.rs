use turbotrim::is_fastq;

fn check(name: &str) -> bool {
    is_fastq(&name.as_bytes().to_vec())
}

#[test]
fn accepts_compressed_read_file_names() {
    assert!(check("sample.fastq.gz"));
    assert!(check("sample.fq.gz"));
    assert!(check("fastq.gz"));
    assert!(check("fq.gz"));
    assert!(check("dir/reads_1.fastq.gz"));
}

#[test]
fn rejects_other_names() {
    assert!(!check("sample.fastq"));
    assert!(!check("sample.fq"));
    assert!(!check("sample.gz"));
    assert!(!check("sample.fastq.gz.bak"));
    assert!(!check(""));
    assert!(!check("q.gz"));
}
