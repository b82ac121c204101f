//! The repository: objects, snapshots, the index, garbage collection and
//! where all of it lies.

pub mod gc;
pub mod index;
pub mod location;
pub mod objects;
pub mod snapshots;

pub use gc::{delete_objects, list_all_objects, ObjectReferences};
pub use index::{Index, IndexEntry};
pub use location::StorageLocation;
pub use objects::ObjectStore;
pub use snapshots::{FileEntry, Snapshot, SnapshotStore};
