pub mod data;
pub mod db;
pub mod encoding;
pub mod errors;
pub mod index;
pub mod indexer;
pub mod key;
pub mod order;
pub mod render;
