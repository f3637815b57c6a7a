//! Deliberate memory pressure: turn a size such as `25M` into a byte count,
//! claim that many bytes in zeroed chunks, and give them back in order.

pub mod chunks;
pub mod cli;
pub mod controller;
pub mod report;
pub mod size;
pub mod size_lemmas;
