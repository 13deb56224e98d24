//! Session-management core of a remote-shell and file-transfer client.
//!
//! The library decides; the caller performs the network work. It holds the
//! profile registry, resolves bastion chains into a connection plan, drives
//! connection establishment as a state machine, keeps the table of live
//! sessions with their exclusively owned writers and port forwards, and
//! tracks cancellable downloads and the events they emit.
pub mod error;
pub mod profile;
pub mod table;
pub mod route;
pub mod establish;
pub mod channels;
pub mod events;
pub mod session;
pub mod registry;
pub mod transfer;
pub mod keys;
