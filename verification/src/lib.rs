//! A registry of paired virtual serial-port links.
//!
//! Every link is kept alive by one background process. The registry is a
//! line-oriented text file with one record per process; this crate holds the
//! format of that file, the operations on it and the order of the steps that
//! create and tear down a link, each with a proved contract. Reading and
//! writing the file, starting and signalling processes are left to the caller.

pub mod text;
pub mod decimal;
pub mod fields;
pub mod record;
pub mod store;
pub mod laws;
pub mod present;
pub mod manager;
