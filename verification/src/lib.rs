//! An ephemeral, content-addressed object store and the session store that
//! guards writes to it.
//!
//! Objects are keyed by a digest of their bytes, carry a caller-declared
//! content type and an absolute expiration, and are dead once that
//! expiration has passed, whether or not a sweep has reclaimed them yet.
//! Sessions follow the same time-to-live pattern with a fixed lifetime.
//!
//! Every function takes the current time as an argument: the library never
//! reads a clock. It never touches a file either. Where an operation needs
//! file work, the library says what is to be done and its caller does it.
//!
//! - [`timestamp`]: expirations and their stored form.
//! - [`digest`]: the key of an object, and hashing while writing.
//! - [`encoding`]: the base64 and UTF-8 text forms.
//! - [`keyspace`]: the keyspaces of the embedded store.
//! - [`entropy`]: random numbers.
//! - [`failure`]: the failures of the engine.
//! - [`objects`]: the object store.
//! - [`ingest`]: the streaming ingestion pipeline.
//! - [`sweep`]: what a sweep evicts.
//! - [`sessions`]: the session store.

pub mod digest;
pub mod encoding;
pub mod entropy;
pub mod failure;
pub mod ingest;
pub mod keyspace;
pub mod objects;
pub mod sessions;
pub mod sweep;
pub mod timestamp;
