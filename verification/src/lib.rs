//! Verified planning for the ingestion pipeline of a comic library: how a
//! download is framed and sequenced, what extracting a zip archive writes,
//! and which image of an archive becomes its cover.
//!
//! The library touches neither the network nor the file system. It reads zip
//! containers from bytes in memory, and it answers with plans that a driver
//! carries out: requests to send, directories to create, files to write.

pub mod archive;
pub mod cover;
pub mod download;
pub mod extract;
pub mod fetch;
pub mod greeting;
pub mod json;
pub mod paths;
pub mod status;
pub mod text;
