//! Core of a video-hosting backend: planning and driving chunked multipart
//! uploads to an object store, serving stored objects back, and the small
//! pieces of request handling (cookie parsing, role checks) around them.

pub mod auth;
pub mod dtos;
pub mod keys;
pub mod planner;
pub mod retrieval;
pub mod upload;
pub mod users;
