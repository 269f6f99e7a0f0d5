//! A registry that binds 16-byte filename tokens to the accounts that own them,
//! with a per-owner capacity and a global count of records.
//!
//! `keymap` holds the records, errors, events and origins; `pallet` the registry and
//! its single mutating call; `laws` what holds of every run of registrations.
pub mod keymap;
pub mod laws;
pub mod pallet;
