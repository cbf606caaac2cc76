//! **B**ody **Arc**hive container files: reading and writing.
//!
//! A BARC file is a series of records, each of an HTTP request and response
//! dialog. A record head of fixed length, in ASCII, gives the lengths of the
//! header blocks and bodies that come after it. These are stored as raw bytes,
//! each followed by an empty line, or compressed.
//!
//! * A block of _meta_ headers holds more details, and application specific
//!   values.
//!
//! * Records are read in sequence, or by their offset.
//!
//! * One writer is safe with any number of concurrent readers: a record is
//!   written behind a _reserved_ head, which readers take for the end of the
//!   file, and which is replaced last.
//!
//! * Records are compressed with gzip or Brotli, or not at all.
pub mod compress;
pub mod convert;
pub mod head;
pub mod reader;
pub mod record;
pub mod stored;
pub mod writer;
