//! Argument binding and wire encoding for a multi-backend SQL client.
//!
//! The library type-erases bound values, rewrites placeholder syntax between
//! backends (with vector expansion), encodes values into each backend's
//! binary parameter block with snapshot rollback on failure, and reduces
//! backend types, columns and rows to one generic model.

/// Errors of every stage.
pub mod error;
/// Byte-order helpers and the 32-bit length limit.
pub mod bytes;
/// Character and decimal helpers.
pub mod text;
/// Type-erased bound values and their mathematical models.
pub mod value;
/// Conversions of caller values into bound values.
pub mod encode_owned;
/// Argument indices: by position or by name.
pub mod index;
/// The backend-agnostic argument bag, lookups and argument kinds.
pub mod arguments;
/// Backend descriptors and URL-scheme selection.
pub mod database;
/// Placeholder scanning and expansion into backend-native syntax.
pub mod placeholders;
/// Types of the protocol with server-typed parameters.
pub mod pg_types;
/// The parameter block of the protocol with server-typed parameters.
pub mod pg_buffer;
/// The argument bag of the protocol with server-typed parameters.
pub mod pg_arguments;
/// Types, null bitmap and positional values of the protocol with separate null markers.
pub mod mysql;
/// The argument bag of the protocol with separate null markers.
pub mod mysql_arguments;
/// The reduced model of the runtime-selected backend.
pub mod any;
/// Reduction and argument handling for the protocol with server-typed parameters.
pub mod any_postgres;
/// Reduction and argument handling for the protocol with separate null markers.
pub mod any_mysql;
/// A slot filled at most once, for process-wide test state.
pub mod testing;
