//! Turns a self-reply thread of posts into one Markdown document with
//! front matter, plus the list of media files that the document refers to.

pub mod text;
pub mod post;
pub mod select;
pub mod filename;
pub mod convert;
pub mod assemble;
pub mod thread;
pub mod fetch;
