//! Mapping of structured application data onto Modbus input and holding
//! registers and back.
//!
//! The crate models a register map as an ordered list of field descriptors
//! ([`entry::Entry`]), groups scattered fields into protocol-legal batched
//! read requests ([`mapping::Mapping::split_into_block_mappings`]), converts
//! typed values to and from sequences of 16-bit register words
//! ([`codec`]), and serves the four register-access Modbus operations from a
//! sparse in-memory register store ([`simulator`]).

/// Utilities for encoding to and decoding from Modbus register words.
pub mod codec;
/// Policy for grouping mapped fields into batched read requests.
pub mod config;
/// One mapped field's descriptor.
pub mod entry;
/// Error kinds shared across the crate.
pub mod error;
/// Ordered register mapping and the block-splitting algorithm.
pub mod mapping;
/// The register store, request dispatch and device-simulation engine.
pub mod simulator;
/// Typed raw register values and their word-level codec.
pub mod value;
