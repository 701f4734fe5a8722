//! Dynamic schema description and row decoding for indexed world state.
//!
//! A world stores typed records whose shapes are only known at run time. This
//! crate derives field tables from stored layout descriptions, describes the
//! query surface those tables give rise to, and decodes fetched rows into
//! generic value tables. It also reads the settings of a project from its
//! metadata. Everything here works on plain values; connections, queries,
//! files and the wire protocol live with the caller.

pub mod component;
pub mod config;
pub mod definition;
pub mod entries;
pub mod object;
pub mod rendering;
pub mod scalar;
pub mod schema;
pub mod storage;
pub mod text;
pub mod timestamp;
pub mod type_mapping;
pub mod value;
