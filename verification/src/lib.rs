//! Verified core of a photo-library timestamp normalizer.
//!
//! The library models the pipeline that scans a directory tree, reads an
//! embedded capture-date field out of each regular file, parses it in the
//! fixed `YYYY:MM:DD HH:MM:SS` format, rejects implausible years, and
//! computes the Unix timestamp to apply as the file's modification time.
//! The traversal policy, the calendar arithmetic, the parser and the
//! per-file decision policy are verified here; the surrounding process
//! does only I/O and logging, and performs exactly what is decided here.

pub mod datetime;
pub mod decide;
pub mod epoch;
pub mod scan;
pub mod tree;
