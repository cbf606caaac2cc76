//! HTTP bodies in RAM, in files or in memory maps, the dialogs that they are part
//! of, and the BARC format in which dialogs are recorded.
//!
//! No input or output is done here. A body is generic in the handle of its file,
//! and in its memory map. Where a file has to be opened, read or written, or a
//! thread has to block, a function says so in its result, and the owner of the
//! file does it and reports back. What is proved holds for every report that the
//! contracts admit.

pub mod barc;
pub mod blocking;
pub mod body;
pub mod buf;
pub mod cli;
pub mod codec;
pub mod dialog;
pub mod futio;
pub mod headers;
pub mod logger;
pub mod mem_util;
pub mod read_from;
pub mod read_pos;
pub mod text;
pub mod tune;
