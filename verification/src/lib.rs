//! Snapshots of terrain at many levels of detail, as a world keeps them in
//! its database: the keys and payloads of sections, the codecs of the
//! payloads, and the tables that name the blocks. What is decoded is
//! what the bytes hold, and each function says so in its contract.
pub mod block;
pub mod budget;
pub mod compression;
pub mod data;
pub mod detail_level;
pub mod error;
pub mod extent;
pub mod java;
pub mod light;
pub mod repo;
pub mod section;
pub mod section_pos;
pub mod text;

pub use detail_level::DetailLevel;
pub use error::{Error, Fault};
pub use section::Section;
