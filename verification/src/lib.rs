//! # Schema-driven typed views over a columnar row store
//!
//! This crate is a typed-view layer over a generic, already-parsed columnar
//! row store: a read-only database of named tables whose rows are addressed
//! by hash bucket. The store itself (byte format, memory layout) is an
//! external collaborator; this crate consumes it as plain data (see
//! [`store`]) and adds the schema-driven part:
//!
//! - a declarative schema model ([`schema`]),
//! - a binding compiler that turns each table declaration into a stable
//!   column identifier set with normalized identifier names ([`binding`]),
//! - a column resolver tolerant of schema drift, and typed field extraction
//!   with a precise nullability/default policy ([`view`], [`extract`]),
//! - deterministic row serialization in declared column order ([`record`]),
//! - a database assembler with mandatory and optional tables ([`database`]).

pub mod binding;
pub mod bytes;
pub mod catalog;
pub mod database;
pub mod ext;
pub mod extract;
pub mod queries;
pub mod record;
pub mod schema;
pub mod store;
pub mod text;
pub mod view;
