//! Schema normalization and validation for tool-calling providers.
//!
//! The crate rewrites JSON-Schema-shaped trees into the constrained dialect
//! that provider APIs accept (reference inlining, metadata stripping,
//! nullable-union collapsing), repairs object schemas so that the keys
//! providers validate strictly are always present, and carries the small
//! pure cores of the provider registry and the bounded retry policy.

pub mod complete;
pub mod json;
pub mod local_inference;
pub mod normalize;
pub mod provider_configs;
pub mod registry;
pub mod retry;
pub mod tool_schema;
