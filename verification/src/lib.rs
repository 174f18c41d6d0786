//! A per-domain credential store behind a transport-independent request
//! dispatcher, with a registry of the client devices that have called it.

pub mod codec;
pub mod config;
pub mod devices;
pub mod document;
pub mod error;
pub mod http;
pub mod json;
pub mod routing;
pub mod service;
pub mod storage;
pub mod text;
