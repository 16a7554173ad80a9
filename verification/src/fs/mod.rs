//! The chunk store: chunk sets, fingerprints and catalog entries.

use vstd::prelude::*;

pub mod digest;
pub mod fs_container;
pub mod fs_info;
pub mod fs_meta;
pub mod fs_store;
pub mod path;

pub use fs_container::{ChunkError, FsContainer, FsContainerView};
pub use fs_info::FsInfo;
pub use fs_meta::FsMeta;
pub use fs_store::{FsStore, CHUNK_SIZE};

verus! {

/// One shard of file content. The type enforces no size.
pub type FsChunk = Vec<u8>;

} // verus!
