//! Bundles a tree of C source files into one file.
//!
//! Source files are linked by directives in comments. `// cbundl: bundle`
//! marks the `#include "..."` on the next line as a file to bundle, and
//! `// cbundl: impl=<path>` names the file that implements what a header
//! declares. From an entry file the library follows these links, builds a
//! graph of the files, orders them so that every declaration comes after
//! the declarations that it depends on, and joins them into one text.
//!
//! The library touches no file. [`builder::SourceGraphBuilder`] asks its
//! caller for the text of a file or for the canonical form of a path, and
//! takes the answer in its next step; [`source::Sources`] orders the
//! finished graph; [`pipeline::Pipeline`] makes the text of the bundle.

pub mod banner;
pub mod builder;
pub mod bundler;
pub mod config;
pub mod graph;
pub mod header;
pub mod minify;
pub mod order;
pub mod parse;
pub mod paths;
pub mod pipeline;
pub mod quotes;
pub mod regexes;
pub mod source;
pub mod text;
