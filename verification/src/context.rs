//! Context management: how a session's token budget is split between its
//! sources, and when the paper trail is compressed.

pub mod classification;
pub mod budget;
pub mod compression;
pub mod tokens;
