//! Tribal government directory: extraction of directory entries from listing
//! pages and queries over the resulting table.
pub mod args;
pub mod extract;
pub mod markup;
pub mod normalize;
pub mod query;
pub mod record;
pub mod refresh;
pub mod text;
