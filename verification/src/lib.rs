//! The verified core of a transport that carries many independent contexts over one framed
//! byte stream.
//!
//! Every frame starts with the handle of the context it belongs to. The library says how
//! frames are written and taken apart, how handles are given out on the two sides of a
//! connection, where an arriving frame goes, what the end of the stream does, and what each
//! poll of a transport or of a connection answers. The asynchronous plumbing around it lives in
//! the application.
pub mod codec;
pub mod context;
pub mod delivery;
pub mod display;
pub mod error;
pub mod frame;
pub mod handle;
pub mod history;
pub mod poll;
pub mod router;
pub mod schema;
pub mod session;
pub mod stream;
pub mod transport;
