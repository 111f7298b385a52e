//! Client-side wire layer of a binary game-distribution protocol: a message
//! header codec that classifies raw packets, and a channel cipher that
//! protects packet bodies with an encrypted-IV block-cipher scheme.

pub mod cipher;
pub mod header;
