//! Verified decision logic of a family of small socket programs: two
//! multi-client chat servers (one driven by `poll`, one by `select`), the
//! stdin readiness demos, a forking stream server, and the address text that
//! every program builds before it binds or connects.
//!
//! The programs themselves (sockets, signals, printing) live in `app/`; they
//! perform the actions that the state machines here decide and hand back what
//! the operating system answered.
pub mod fd_set;
pub mod poll_flags;
pub mod stdin_wait;
pub mod chat;
pub mod poll_server;
pub mod select_server;
pub mod address;
pub mod stream;
