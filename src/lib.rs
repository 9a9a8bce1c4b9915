//! An in-memory entity-component store: entities are grouped into blocks by
//! the exact set of component types they carry, and every component type of a
//! block is laid out as its own column.
pub mod query;
pub mod slice;
pub mod storage;
pub mod world;

pub use query::{
    has_type, types_match, All, ComponentList, Exact, Matcher, Read, ReadComponent, Write,
    WriteComponent,
};
pub use slice::{Immutable, Mutability, Mutable, RawSlice, Sealed, Slice};
pub use storage::{
    Component, ComponentId, EmptyStorage, Key, SoaStorage, StorageBuilder, UnsafeStorage,
};
pub use world::{AddError, World};
