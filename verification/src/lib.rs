//! HTTP/2 on an event loop, at the end of the client.

pub mod channel;
pub mod client;
pub mod connection;
pub mod cursor;
pub mod delegate;
pub mod dispatcher;
pub mod evtloop;
pub mod frames;
pub mod future;
pub mod h2;
pub mod h2o;
pub mod header_block;
pub mod laws;
pub mod reader;
pub mod request;
pub mod response;
pub mod session;
pub mod simple;
pub mod slab;
pub mod stream;
pub mod text;

pub use request::Request;
