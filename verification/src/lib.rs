//! A file uploader's core, verified: the template language in which an
//! uploader says where a file goes and where in the response its address
//! is found, and the records around it.
//!
//! - `syntax` reads a directive from a template, `templator` formats a
//!   template, `resolve` holds what each directive stands for, and `laws`
//!   states what holds of every template.
//! - `file`, `config`, `curlyfries`, `history` and `args` are the records
//!   of the program, with what is computed on them.
//! - `text` works on characters, and `trusted` is where other crates are
//!   called: what its contracts say is believed, everything else is proved.
//!
//! The crate reads no file, opens no connection and does no floating-point
//! arithmetic: its caller hands it what was read, and takes from it what is
//! to be sent.

pub mod args;
pub mod config;
pub mod curlyfries;
pub mod error;
pub mod file;
pub mod history;
pub mod laws;
pub mod resolve;
pub mod syntax;
pub mod templator;
pub mod text;
pub mod trusted;
