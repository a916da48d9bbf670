//! ss2env: a secrets-injection launcher.
//!
//! The library resolves a configuration from command-line arguments and
//! optional defaults, maps decrypted secret entries to environment-variable
//! names, and decides how a run proceeds after each outside step (file
//! probes, vault load, child process). All file access, decryption and
//! process spawning happen outside the library, which receives their
//! outcomes as plain values.

pub mod envmap;
pub mod launch;
pub mod paths;
pub mod resolve;
pub mod strutil;
