//! Runtime state of an instantiated WebAssembly module: tables, linear
//! memories and global storage, built from a module description and the
//! entry addresses of its compiled functions.
pub mod instance;
pub mod invoke;
pub mod memory;
pub mod module;
