//! The logic of a small image server, verified with Verus.
//!
//! The heart of it is [`cache`], a cache of rendered images with three FIFO
//! queues. Around it stand the rules of a request: what identifies it
//! ([`request`]), what is to be done to the image ([`processing`],
//! [`transform`]), who may ask ([`security`]), which files may be touched
//! ([`storage`]), what the stored images are kept in ([`image_cache`]) and
//! what an error means to the client ([`error`]).

pub mod cache;
pub mod error;
pub mod image_cache;
pub mod processing;
pub mod request;
pub mod security;
pub mod storage;
pub mod text;
pub mod transform;
