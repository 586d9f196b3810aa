//! A browser for a game's weapon catalogue: the catalogue parser, the filter,
//! sort and search engine, the matching of scanned screen text against the
//! catalogue, and the state machine that ties them together.
pub mod browser;
pub mod catalogue;
pub mod display;
pub mod filter;
pub mod http;
pub mod json;
pub mod scan;
pub mod search;
pub mod text;
pub mod weapons;
