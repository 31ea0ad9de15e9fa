//! Request pipeline of an audio-transformation gateway: parameter codec,
//! content fingerprints, key normalisation, caching decisions and the
//! transcoder argument vector.

pub mod blob;
pub mod text;
pub mod number;
pub mod decimal;
pub mod strmap;
pub mod codec;
pub mod params;
pub mod hasher;
pub mod normalize;
pub mod config;
pub mod storage;
pub mod cache;
pub mod tags;
pub mod endpoint;
pub mod processor;
pub mod response;
pub mod metadata;
pub mod pipeline;
