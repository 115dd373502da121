//! Query front end of a semantic site search: filter cascade, strategy
//! selection, result merging and snippet highlighting, with their contracts.

pub mod config;
pub mod filter;
pub mod highlight;
pub mod merge;
pub mod point;
pub mod prefix;
pub mod request;
pub mod response;
pub mod search;
