//! Content and presentation logic of a personal portfolio site: page
//! stylesheets, markdown rendering with highlighted code blocks, excerpts,
//! the contact form's screening and validation, and the small decisions the
//! server and the browser scripts make.

pub mod config;
pub mod contact;
pub mod css;
pub mod highlight;
pub mod markdown;
pub mod models;
pub mod pages;
pub mod request_log;
pub mod templates;
pub mod text;
pub mod theme;
