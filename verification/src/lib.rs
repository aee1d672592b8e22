//! A personal reminder list: short notes kept in order, marked done, listed
//! and purged, together with the JSON document that holds them on disk.

pub mod command;
pub mod diskvec;
pub mod json;
pub mod memo;
pub mod text;

pub use diskvec::{DiskVec, Render};
pub use memo::{Memo, Memos, Status};
