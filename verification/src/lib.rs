//! Endpoint resolution for a regional storage service.
//!
//! A region is resolved against a table of partitions. Each partition has a
//! pattern that its regions follow, a default endpoint whose address is made
//! out for the region, and endpoints that it lists by name. The first
//! partition whose pattern accepts the region is picked, and the first of the
//! table where none does; in it, an endpoint listed under the region's name
//! wins over the default. Either way the region is written into the address
//! wherever a placeholder stands. Every region has an endpoint.
//!
//! - `pattern`, `charset`: what a pattern is and which texts it accepts;
//!   `parse`: how a pattern is written; `matching`: how a text is tested.
//! - `endpoint`, `partition`, `resolver`: the table and the rules of
//!   resolution.
//! - `s3`, `s3_patterns`: the table of the storage service and its patterns.
//! - `laws`: what holds of resolution against any table, proved;
//!   `s3_laws`: what holds of it against the table of the storage service.

pub mod charset;
pub mod endpoint;
pub mod laws;
pub mod matching;
pub mod parse;
pub mod partition;
pub mod pattern;
pub mod resolver;
pub mod s3;
pub mod s3_laws;
pub mod s3_patterns;
pub mod text;

pub use s3::endpoint_resolver;
