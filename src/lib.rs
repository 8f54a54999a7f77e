//! Comparison of files and directories.
//!
//! Two files compare equal when their signatures (type, size and modification time)
//! say so in shallow mode, or when their contents are the same; outcomes of content
//! comparisons are remembered in a bounded cache. Two directories are compared by
//! their listings: the names they share are classified as directories, regular
//! files or neither, and the shared regular files are compared.
//!
//! The library decides; reading metadata, listings and contents is left to the caller,
//! which hands the results in as plain values.

pub mod cache;
pub mod compare;
pub mod dircmp;
pub mod listing;
pub mod os;
pub mod signature;
pub mod stat;

pub use cache::{clear_cache, CacheKey, ComparisonCache};
pub use compare::{cmp, cmp_chunks, cmpfiles, CmpStep};
pub use dircmp::{DirCmp, EntryKind};
pub use listing::DirEntry;
pub use signature::{sig, Signature};
