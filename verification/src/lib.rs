//! The control-channel core of a minimal FTP-style server: the line
//! decoder, the per-connection session state machine, and the command
//! dispatcher with its status-coded replies. Everything here is plain
//! computation on the bytes and lines a connection handler passes in; the
//! sockets, threads and signals around it live in the accompanying binary.

pub mod dispatch;
pub mod laws;
pub mod lines;
pub mod parse;
pub mod session;
pub mod text;
