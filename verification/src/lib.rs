//! The logic of an X-Plane plugin that serves DataRefs over HTTP: reading its
//! configuration, reading X-Plane's `DataRefs.txt` listing and filing each
//! DataRef under its type, choosing how a DataRef of unknown type is read,
//! and what each HTTP route answers.

pub mod config;
pub mod dataref;
pub mod number;
pub mod ref_actions;
pub mod server;
pub mod text;
