//! A history-query engine for version-controlled repositories.
//!
//! The library turns raw version-control primitives (commits, parents,
//! trees, blobs, blame hunks, branch refs) into derived, client-ready
//! structures: commit graphs, per-line blame, file trees, author
//! identities and time- or ref-bounded commit ranges.  A sequential
//! request/response protocol paces delivery of those structures as
//! framed responses; the surrounding process does the line-based I/O.

pub mod authors;
pub mod backend;
pub mod blame;
pub mod branches;
pub mod commits;
pub mod explorer;
pub mod file_content;
pub mod file_types;
pub mod graph;
pub mod range;
mod strutil;
pub mod tree;
mod utils;

pub use utils::get_author_id;
pub use utils::gravatar_hash;
