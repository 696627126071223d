//! Chunking adapters for stress-testing byte-stream code.
//!
//! `DribbleReader` wraps a source of bytes and hands them out in small,
//! randomly sized chunks; `DribbleWriter` wraps a sink and delivers each
//! write to it as many small fragments.  Both are transparent to a correct
//! caller: nothing is lost, reordered or invented, only cut up.  They exist
//! to push code that consumes or produces streams through the buffer
//! boundaries that full-size reads and writes never reach.

mod frags;
mod mem;
mod random;
mod reader;
mod stream;
mod writer;

pub use frags::concat_frags;
pub use frags::lemma_chunks_rejoin;
pub use frags::lemma_concat_frags_push;
pub use frags::lemma_round_trip_step;
pub use mem::MemSink;
pub use mem::MemSource;
pub use random::RandomSizer;
pub use reader::DribbleReader;
pub use stream::ByteSink;
pub use stream::ByteSource;
pub use stream::ChunkSizer;
pub use stream::StreamError;
pub use writer::DribbleWriter;
