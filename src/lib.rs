//! The core of a small multiplayer session service over UDP datagrams: a
//! declarative binary layout system, the message catalogue and codec built on
//! it, the client's table of outstanding requests with retries and ping
//! statistics, and the server's session table with its request handling.
//! Sockets, threads and channels are left to the embedding program, which
//! hands each received datagram to this library and sends what it returns.

pub mod addr;
pub mod bits;
pub mod builders;
pub mod bytes;
pub mod client;
pub mod connection;
pub mod datahelpers;
pub mod datastructure;
pub mod job;
pub mod jobtype;
pub mod layout;
pub mod player;
pub mod playercreatedresponse;
pub mod playerenterpush;
pub mod params;
pub mod protocol;
pub mod roundtrip;
pub mod runtime;
pub mod server;
