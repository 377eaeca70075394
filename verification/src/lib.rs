//! Controlled sharing of pictures between peers, with a cloud that encrypts
//! them.

pub mod address;
pub mod client;
pub mod ids;
pub mod laws;
pub mod ledger;
pub mod message;
pub mod picture;
pub mod priority;
pub mod random;
pub mod server;
pub mod text;
pub mod utils;
pub mod waiting;
