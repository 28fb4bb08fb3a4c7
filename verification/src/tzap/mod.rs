//! The `.tzap` archive format: volume sets, keys, signatures, and what
//! creating, listing, testing and extracting an archive decide and report.
pub mod archive;
pub mod authenticator;
pub mod certificate;
pub mod create;
pub mod error;
pub mod extract;
pub mod headers;
pub mod inventory;
pub mod job;
pub mod keys;
pub mod metadata;
pub mod names;
pub mod opening;
pub mod progress;
pub mod reader;
pub mod recipients;
pub mod root_auth;
pub mod round_trip;
pub mod signature;
pub mod single_file;
pub mod sink;
pub mod steps;
pub mod volumes;
