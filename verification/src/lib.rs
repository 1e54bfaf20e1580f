//! The control channel of a terraform resource destroyer, without its I/O.
//!
//! A client connects to a local socket and sends one line: `list` asks for the
//! resources that terraform manages, `kill <resource>` has one destroyed. This
//! crate holds everything that is decided along the way: how the terraform and
//! docker command lines are put together, how an instruction is read, how the
//! listing is cut into resources and written back, and which step follows
//! which on a connection. Whoever drives it owns the socket and the processes.

pub mod command;
pub mod laws;
pub mod options;
pub mod protocol;
pub mod server;
pub mod session;
pub mod text;

pub use command::{base_command, Docker, TF_PREFIX};
pub use options::{Opt, PORT};
pub use protocol::Instruction;
pub use server::{Action, Event, Outcome, Phase, TfDoom, READ_LIMIT, SOCKET_PATH};
