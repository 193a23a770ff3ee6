//! A repository of Markdown posts with TOML front matter: the document
//! codec, the mapping of front matter onto posts, and the decisions of the
//! scan, update and create operations.

pub mod text;
pub mod codec;
pub mod error;
pub mod post;
pub mod repo;
