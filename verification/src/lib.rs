//! Relevance benchmark for a search endpoint.
//!
//! Every document of a corpus is probed with partial texts cut from its own
//! body. Each answer of the endpoint is searched for the document's identifier,
//! the rank at which it came back is turned into points, and the points are
//! summed per category next to the most that could have been earned.
//!
//! The library decides and computes; it sends nothing itself. A program
//! around it makes the calls that [`configuration::Configuration::prepare`]
//! builds, hands what came back to [`dispatch::QueryRun::settle`], and feeds
//! the records into an [`aggregate::Aggregate`].

pub mod aggregate;
pub mod configuration;
pub mod dispatch;
pub mod encode;
pub mod generator;
pub mod json;
pub mod score;
pub mod template;
pub mod text;

pub use generator::Document;
pub use score::{Kind, Request};
