//! State-transition logic of a single on-chain election: its lifecycle,
//! candidate registry and direct tally, and a queue of blinded votes that any
//! signed account approves into a permanent ledger or rejects.
//!
//! The runtime around it resolves the caller into an [`types::Origin`],
//! supplies the current block, and deposits the [`types::Event`] that each
//! successful call returns. [`model`] states every call as a transition on
//! [`model::PalletState`], [`pallet::Pallet`] carries them out, and [`laws`]
//! proves what holds across calls.
pub mod laws;
pub mod model;
pub mod pallet;
pub mod types;
