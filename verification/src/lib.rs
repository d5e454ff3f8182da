//! A minimal HTTP-over-TCP server core, verified with Verus.
//!
//! The library covers everything in the request/response pipeline that can be
//! stated as a function from plain values to plain values: parsing a raw byte
//! buffer into a structured request, routing by method and path, framing a
//! response, and the bookkeeping of a partial-write send loop.  Socket and
//! filesystem access stay outside, in the surrounding application, which hands
//! byte buffers in and takes byte buffers out.

pub mod address;
pub mod api;
pub mod config;
pub mod digits;
pub mod method;
pub mod paths;
pub mod request;
pub mod response;
pub mod router;
pub mod scan;
pub mod strconv;
pub mod urlenc;
pub mod writer;

pub use method::HttpMethod;
