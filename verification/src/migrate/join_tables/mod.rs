//! The tables holding a field's rows: relationships to many, arrays, blocks.
pub mod array;
pub mod blocks;
pub mod junction_shape;
pub mod locale_rows;
pub mod orchestrator;
pub mod parent_index;
pub mod relationship;
pub mod resync;
