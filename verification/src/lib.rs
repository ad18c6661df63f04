//! RPC over binary messages: 16-byte frames on a byte stream, calls
//! multiplexed by id, every call ended by exactly one CLOSE frame carrying a
//! status.
//!
//! The library holds the protocol and the decisions of both ends. It does no
//! I/O and reads no clock: bytes, frames and times come in as values, and
//! frames to be sent and steps to be taken go out as values.
//!
//! - [`bytes`], [`text`]: integers as bytes, numbers and UTF-8 as text
//! - [`frame`]: preface, headers, prologues and whole frames
//! - [`status`], [`method`], [`error`]: what calls are named by and end with
//! - [`context`], [`limit`]: deadlines and caps
//! - [`router`], [`outlet`], [`call`], [`stream`], [`server`]: the server's side
//!   of a connection
//! - [`client`], [`pending`]: the client's side
//! - [`echo`]: the shared echo service
//! - [`laws`]: what holds between the parts

pub mod bytes;
pub mod call;
pub mod client;
pub mod context;
pub mod echo;
pub mod error;
pub mod frame;
pub mod laws;
pub mod limit;
pub mod method;
pub mod outlet;
pub mod pending;
pub mod router;
pub mod server;
pub mod status;
pub mod stream;
pub mod text;

pub use call::Sink;
pub use client::Client;
pub use context::Context;
pub use error::RpcError;
pub use method::{Message, Method, StreamMethod};
pub use outlet::{Outbox, Outlet};
pub use pending::Streaming;
pub use router::Router;
pub use server::Server;
pub use status::{Code, Status};
pub use stream::CallOutlet;
