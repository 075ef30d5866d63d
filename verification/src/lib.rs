//! Session layer of a line-oriented multiplayer board game: the wire-protocol
//! codec, the server-side connection registry with its addressed fan-out, and
//! the client-side screen state machine, each specified against a mathematical
//! model and verified.
//!
//! Network transports, the logic subprocess and all rendering are external
//! collaborators: the surrounding application performs that I/O and drives the
//! pure transition functions offered here.

pub mod assoc;
pub mod board;
pub mod command;
pub mod connection;
pub mod model;
pub mod relay;
pub mod screen;
pub mod text;
