//! Index of an NTFS volume built from its master file table.
//!
//! The crate holds three pieces: a sector-aligned, cached cursor over a raw
//! volume ([`reader`]), the extraction of per-record metadata and the flat
//! index built from it ([`metadata`], [`flat`]), and the directory tree with
//! hard-link aware parent/child edges ([`tree`]).

pub mod flat;
pub mod metadata;
pub mod ordered;
pub mod reader;
pub mod signature;
pub mod tree;

pub use flat::FlatIndexBuilder;
pub use flat::VolumeIndexFlatArray;
pub use metadata::DataResidency;
pub use metadata::FileMetadata;
pub use metadata::FileNameAttribute;
pub use metadata::FileNamespace;
pub use metadata::MftRecord;
pub use metadata::RecordAttribute;
pub use reader::ReadPlan;
pub use reader::SeekError;
pub use reader::SeekTarget;
pub use reader::VolumeReader;
pub use signature::verify_ntfs_system_id;
pub use tree::VolumeIndexTree;
