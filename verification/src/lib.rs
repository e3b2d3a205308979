//! A stablecoin's economic engine and the services around it.
//!
//! The heart of the crate is [`stablecoin`]: a balance ledger, a collateral
//! tracker, a price stabiliser with its compliance rules, a multi-signature
//! authoriser and a register of votes. [`governance`] holds time-bounded
//! proposals. Around them stand a device registry, teaching material,
//! identities with signing keys, tokenised assets, signatures and
//! encryption, and models and tools for the two networks.
//!
//! Every function carries a contract, and Verus proves that the function
//! keeps it. The components do not call one another; whoever owns them
//! composes them. Each is a plain value with one owner: callers that share
//! a component between threads put it behind a lock and make each call one
//! critical section.
//!
//! What the crate takes from other crates, it takes through a handful of
//! small functions whose contracts are believed, not proved. Each says in
//! its documentation which function it calls and what it claims of it.

pub mod dashboard;
pub mod directory;
pub mod education;
pub mod governance;
pub mod identity_management;
pub mod ids;
pub mod iot_integration;
pub mod json;
pub mod models;
pub mod ordered_map;
pub mod security;
pub mod smart_contract;
pub mod stablecoin;
pub mod string_set;
pub mod text;
pub mod text_search;
pub mod tokenization;
pub mod tools;
pub mod utils;
