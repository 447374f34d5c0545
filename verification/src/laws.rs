//! What holds of every script, stated over the models that the contracts
//! use and proved from them.

pub mod reading;
pub mod resolving;
pub mod sequencing;
