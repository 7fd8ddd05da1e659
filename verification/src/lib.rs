//! Route graph and menu renderer for a municipal recycling-information bot.
//!
//! The library compiles a declarative catalog of named routes (content pages
//! with parent/child links and optional external links) from configuration
//! entries, resolves raw commands and callback payloads to canonical route
//! keys, and renders a route as display text plus a grid of labelled buttons,
//! under one of two packing policies.

pub mod catalog;
pub mod chars;
pub mod commands;
pub mod content;
pub mod escape;
pub mod laws;
pub mod layout;
pub mod location;
pub mod model;
pub mod render;
pub mod resolve;
