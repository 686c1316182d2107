//! Offset, interface and schema discovery logic for a Source 2 game image,
//! kept free of process I/O: the functions here compute on module bytes,
//! addresses and values that the caller has read.

pub mod elf;
pub mod pattern;
pub mod config;
pub mod offsets;
pub mod names;
pub mod text;
pub mod walk;
pub mod interfaces;
pub mod buttons;
pub mod schemas;
