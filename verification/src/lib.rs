//! Verified core of an external-process reader for the ioquake3 client:
//! engine struct layouts decoded from raw memory bytes, the sanity filters
//! that recognise a live `snapshot_t` or `entityState_t` in a heap window,
//! the chunked scan walks, array-stride detection, and the small parsers
//! and state machines behind the command-line front end.

pub mod stride;
pub mod numparse;
pub mod util;
pub mod config;
pub mod layout;
pub mod floatbits;
pub mod locate;
pub mod entity;
pub mod scan;
pub mod menu;
pub mod process;
pub mod diag;
pub mod wide;
pub mod track;
pub mod laws;
pub mod filter_laws;
