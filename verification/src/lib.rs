//! A small recipe website: markdown recipes are turned into HTML pages, grouped
//! by the tags of their front matter, and listed on an index page.

pub mod compiler;
pub mod frontmatter;
pub mod loader;
pub mod markdown;
pub mod recipe;
pub mod server;
pub mod sorting;
pub mod tags;
pub mod text;
pub mod views;
pub mod yaml;

pub use crate::compiler::Compiler;
pub use crate::recipe::Recipe;
