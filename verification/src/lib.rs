//! Trimming pipeline for paired, block-compressed, 4-line-per-record read
//! files: decode both mates, trim a fixed number of bases from one end of
//! every sequence and quality line, and re-encode the results.

pub mod gzip;
pub mod parse;
pub mod paths;
pub mod pipeline;
pub mod record;
pub mod serialize;
pub mod text;
pub mod trim;

pub use paths::is_fastq;
pub use pipeline::{process, read_pairs, PipelineError};
pub use record::{PairedChunk, Record, RecordV};
pub use serialize::{serialize_record, serialize_records};
pub use trim::{trim_chunk, trim_pairs, trim_record, TrimSide, TrimSpec};
