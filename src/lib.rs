//! A per-owner credential store over the host's key-value storage: owners add,
//! edit and delete named secrets, and anyone lists an owner's entries by
//! ascending name.

pub mod contract;
pub mod error;
pub mod msg;
pub mod state;
pub mod lemmas;
