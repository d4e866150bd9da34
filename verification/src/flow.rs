//! What a handler does: it is told what came of its last action, and answers with the next one.

pub mod action;
pub mod laws;
pub mod steps;
