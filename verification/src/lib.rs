//! Parser for the Linux kernel's per-line mount-table description format
//! (the record layout exposed through `mountinfo` files).
//!
//! One line of text is turned into a strongly typed [`MountEntry`] or into a
//! positional [`LineError`] naming exactly which field failed.  A streaming
//! adapter applies the line parser to each line of a byte buffer, yielding one
//! result per line.

pub mod error;
pub mod options;
pub mod record;
pub mod stream;
pub mod text;

pub use error::LineError;
pub use error::ParseError;
pub use record::MountEntry;
pub use record::MountId;
pub use stream::MountInfoParser;
pub use stream::parse_mountinfo;
