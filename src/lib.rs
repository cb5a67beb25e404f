//! Markdown rendering for blog posts: sectioned HTML, a table of contents,
//! rendered math and highlighted code blocks, plus small helpers around them.

pub mod text;
pub mod slug;
pub mod events;
pub mod math;
pub mod sections;
pub mod code;
pub mod highlight;
pub mod render;
pub mod cookies;
pub mod models;
pub mod auth;
pub mod validation;
pub mod preview;
