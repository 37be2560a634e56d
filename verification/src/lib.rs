//! A verified search-aggregation core: category-aware result mapping with
//! silent drop of incomplete records, an optional rerank-based reordering
//! step with index remapping and fallback, order-preserving per-query
//! aggregation with an OR success rule, and an order-restoring image
//! fan-out with an AND success rule.

pub mod auth;
pub mod config;
pub mod cratesio;
pub mod mapper;
pub mod pipeline;
pub mod rerank;
pub mod search;
pub mod text;
pub mod tools;
pub mod types;
