//! The rewriting of the URLs in a message.

pub mod chain;
pub mod defaults;
pub mod laws;
pub mod layout;
pub mod rule;
pub mod rule_laws;
pub mod visits;
pub mod walk;

pub use crate::formatter::rule::{Rule, UrlHostReplaceRule, UrlQueryExcludeRule};
pub use crate::formatter::walk::Effect;
