//! The command core of a local credential manager: an in-memory password
//! store with unique entry names, fuzzy lookup of entries, a password
//! generation policy, a wrapper that keeps secret text out of sight, and the
//! decision logic of the `add` and `regenerate` commands.
//!
//! The functions carry contracts over mathematical models of the data, and
//! are verified against them. The few calls into other crates stand in
//! small functions of their own, whose contracts are taken on trust: each
//! says in its documentation what it claims of the function that it calls.
pub mod commands;
pub mod entry;
pub mod generate;
pub mod macros;
pub mod matcher;
pub mod secret;
pub mod store;
