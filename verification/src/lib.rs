//! A deterministic ledger of breedable kitties and of content-addressed claims.
//!
//! Every transition is a function of the ledger state, the caller, the
//! arguments and values that all replicas agree on; a transition that fails
//! leaves the state as it was.

pub mod kitties;
pub mod kitties_theory;
pub mod poe;
pub mod poe_theory;
pub mod randomness;
