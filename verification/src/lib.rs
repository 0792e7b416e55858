//! Content model of a markdown blog: front matter, the post index and its
//! listings, summaries, pagination and the change debouncer.

pub mod date;
pub mod error;
pub mod feed;
pub mod front_matter;
pub mod index;
pub mod markdown;
pub mod pagination;
pub mod query;
pub mod route;
pub mod summary;
pub mod text;
pub mod toml_doc;
pub mod view;
pub mod watcher;
