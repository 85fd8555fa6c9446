//! Key-value codec and call protocol for contracts that talk to a chain host
//! through a status-only boundary call.

pub mod arena;
pub mod codec;
pub mod context;
pub mod json;
pub mod protocol;
pub mod wire;
