//! The caching and frame-lifecycle layer of a GPU text renderer.
//!
//! A text request is reduced to a [`key::Key`], whose 64-bit fingerprint
//! addresses a shaped paragraph in a [`cache::Cache`]. A [`pipeline::Pipeline`]
//! owns two such caches, one for measurement and one for rendering, together
//! with the cursor over the layers that are prepared within a frame.
//!
//! Sizes, bounds and color channels travel through this crate as IEEE-754
//! single-precision bit patterns. Two requests are the same request only if
//! they agree bit for bit, and a channel becomes a byte by a rule on its bit
//! pattern ([`color::quantize`]).

pub mod color;
pub mod font;
pub mod digest;
pub mod key;
pub mod store;
pub mod cache;
pub mod pipeline;
