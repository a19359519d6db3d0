//! An authenticated link store: a map from short keys to target URLs,
//! guarded by one salted credential and by signed, expiring session tokens.
//!
//! - [`store`]: the credential and the links, with lookup, insertion and
//!   removal, and the laws that these obey.
//! - [`password`]: secret strings, and hashing and checking passwords.
//! - [`auth`]: logging in, issuing and checking session tokens, and the guard
//!   in front of every protected operation.
//! - [`token`]: what is taken on trust of the crates that sign tokens and
//!   hold their JSON payload.
//! - [`routes`]: what each operation of the HTTP surface answers.
//!
//! The library neither reads nor writes files, sockets or the environment:
//! its caller does, and hands it plain values.

pub mod auth;
pub mod password;
pub mod routes;
pub mod store;
pub mod token;
