//! A small record store: records are identified by UUID-format identifiers,
//! serialized as JSON text, and persisted one file per record. The library
//! holds the format and decision logic; the surrounding binary does the I/O.

pub mod ext;
pub mod ident;
pub mod jstring;
pub mod record;
pub mod service;
