//! Core of a Tendermint light-client operator: light-block assembly,
//! header-transition verification, the operator's synchronization state
//! machine and the public-values wire format.

pub mod assembler;
pub mod calldata;
pub mod decimal;
pub mod header_verifier;
pub mod hex_text;
pub mod pagination;
pub mod program;
pub mod public_values;
pub mod rpc;
pub mod signatures;
pub mod sync;
pub mod types;
