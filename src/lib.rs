//! Merchant serviceability by pincode: the pincode-set codec, identifier
//! generation, and the engine that keeps the merchant records and the
//! pincode index in step.
pub mod text;
pub mod codec;
pub mod types;
pub mod engine;
pub mod model;
pub mod requests;
