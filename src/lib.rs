//! Renders a templated JSON document: every `{{ name }}` placeholder inside a
//! string is replaced from two layered variable stores (secrets first, then
//! plain variables), and the outcome of schema validation is judged.
pub mod json;
pub mod laws;
pub mod message;
pub mod path;
pub mod pipeline;
pub mod placeholder;
pub mod resolve;
pub mod store;
pub mod substitute;
pub mod text;
