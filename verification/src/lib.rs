//! Client-side building blocks for the Zulip REST API, verified.
//!
//! The heart of the crate is the reader of runtime configurations, the
//! small INI-style texts that hold the address of a server and the
//! credentials of an account:
//!
//! ```text
//! [api]
//! email=iago@zulip.example
//! key=0123456789abcdef
//! site=https://zulip.example
//! ```
//!
//! - [`grammar`] states the dialect, as functions over sequences of
//!   characters;
//! - [`parser`] applies the grammar to a text and builds a [`tree`];
//! - [`rc`] extracts the settings from the tree, or says why there are
//!   none;
//! - [`document`] and [`viability`] hold the theorems: which texts are
//!   read, what is read from them, and where the others fail.
//!
//! Around it, [`message`] holds the request and response records of the
//! message endpoints, and [`client`] the method and address of each call.
//! Nothing here touches the network: a call is a value, to be sent by
//! whoever has a connection.

pub mod client;
pub mod document;
pub mod grammar;
pub mod message;
pub mod parser;
pub mod rc;
pub mod text;
pub mod tree;
pub mod viability;

pub use client::Client;
use vstd::prelude::*;

verus! {

/// What the server answers to a request that changes something.
#[derive(Clone, Debug, PartialEq, Eq)]
pub enum CommonMutateResponse {
    Success,
    Error(CommonMessageError),
}

/// Why a request that changes something was refused.
#[derive(Clone, Debug, PartialEq, Eq)]
pub struct CommonMessageError {
    pub code: String,
    pub msg: String,
}

} // verus!
