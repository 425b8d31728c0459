//! Client-side core of a network that reaches its peers through one central server.

pub mod context_map;
pub mod error;
pub mod index_set;
pub mod network;
pub mod protocol;
pub mod queue;
pub mod reassembly;
pub mod scan;
pub mod streams;
pub mod theorems;
pub mod worker;
