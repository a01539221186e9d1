//! Lock script for cheque cells: a sender funds a cell that the receiver may
//! claim at any time, and that the sender may take back once six epochs have
//! passed without a claim.
//!
//! The host transaction is handed to the library as a [`helper::TxView`] of
//! plain values; every decision taken on it is verified.

pub mod claim;
pub mod entry;
pub mod error;
pub mod hash;
pub mod helper;
pub mod sighash;
pub mod withdraw;
