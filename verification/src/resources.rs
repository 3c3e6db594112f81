//! Resource models of the two APIs, the query strings and paths of their
//! list and item routes, and the helpers that read their payloads.
pub mod assistants;
pub mod beta;
pub mod chat;
pub mod completions;
pub mod messages;
pub mod paths;
pub mod query;
pub mod responses;
pub mod threads;
pub mod usage;
