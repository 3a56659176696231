//! Storage rules of a small file drop: which names may be stored, how a
//! submission is taken in, how a stored file is handed out again and how the
//! storage directory is listed.

pub mod egress;
pub mod intake;
pub mod json;
pub mod listing;
pub mod metadata;
pub mod pages;
pub mod path;
pub mod reply;
pub mod storage;
pub mod system;
pub mod text;
