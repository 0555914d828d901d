//! Two registries for a host that hands each call the identity of its caller
//! and runs one call at a time.
//!
//! * [`nft`] is a registry of canisters by name. Anyone may read it; only the
//!   controller, the identity that initialised it, may change it.
//! * [`address_book`] is a book in which every caller keeps its own names
//!   for canisters, out of reach of every other caller.
//!
//! Each operation is specified over a map: the state before the call, its
//! arguments and the caller decide the answer and the state after it.

pub mod address_book;
mod assoc;
pub mod identity;
pub mod nft;
pub mod registry;
pub mod response;
