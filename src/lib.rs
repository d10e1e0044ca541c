//! Fetches the issues of a hosted repository and renders each one, with its
//! comments, as a Markdown or XML document.
//!
//! The library holds the verified logic: repository URL resolution, the
//! decisions of the two retrieval strategies, file naming and rendering.
//! Network and file-system work is done by the caller.

pub mod error;
pub mod format;
pub mod github;
pub mod output;
pub mod repo;
pub mod selection;
pub mod text;

pub use error::GhError;
pub use format::{get_file_extension, get_writer, DocumentWriter, FormatWriter, MarkdownWriter, OutputFormat, XmlWriter};
pub use github::{CommentData, IssueData, IssueState};
