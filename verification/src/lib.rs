//! The verified core of a Telegram bot that rewrites the links in messages.

pub mod address;
pub mod entity;
pub mod flow;
pub mod form;
pub mod formatter;
pub mod keys;
pub mod message;
pub mod pattern;
pub mod render;
pub mod text;
