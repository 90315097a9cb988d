//! A small, safe façade over a credential store keyed by service and account.
//!
//! The store's object world (strings, data blobs, attribute dictionaries and
//! stored items) is modelled by [`foreign::Keychain`], with every object's
//! ownership tracked. The three credential operations in [`keychain`] build
//! their queries, issue exactly one store request, map the store's status
//! code onto [`status::KeychainErrorCode`], and release every object they
//! created on every path.
pub mod status;
pub mod foreign;
pub mod keychain;
