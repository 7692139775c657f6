//! A small file-transfer protocol between a storage service and its callers,
//! with the decisions of both ends and of the transcode worker verified.

pub mod text;
pub mod protocol;
pub mod server;
pub mod buffers;
pub mod client;
pub mod transcode;
pub mod web;
