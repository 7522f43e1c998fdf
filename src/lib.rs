//! Insert, refresh and strip a license docstring block at the top of source
//! files, with comment syntax chosen by file extension.

pub mod args;
pub mod block;
pub mod comment;
pub mod docstring;
pub mod error;
pub mod filetype;
pub mod text;
pub mod tmp;
pub mod update;
pub mod walk;

pub use args::Args;
pub use comment::CommentStyle;
pub use docstring::Docstring;
pub use error::{Error, ErrorKind};
pub use filetype::FileType;
pub use tmp::tmp_file_from_path;
pub use update::remove_docstring_from_contents;
