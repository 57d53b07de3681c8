//! Wire format of a group-chat packet and the decisions of timed delivery.
pub mod binary_io;
pub mod crypto_core;
pub mod delivery;
pub mod new_peer;
