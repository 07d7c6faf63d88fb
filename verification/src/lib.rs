//! An allocation-free view of the input buffer that the loader hands to an
//! on-chain program: account handles that may alias one another, a borrow
//! state per account that is checked at run time, and the descriptors that
//! a cross-program call needs.

pub mod account;
pub mod borrow;
pub mod codec;
pub mod cpi;
pub mod deserialize;
pub mod entrypoint;
pub mod guard;
pub mod input;
pub mod key;
pub mod layout;
pub mod system;
pub mod token;
