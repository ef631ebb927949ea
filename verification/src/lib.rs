//! A verified session manager for interactive pseudo-terminal sessions.
//!
//! The library multiplexes many concurrent shell sessions, each backed by a
//! real pseudo-terminal and drained by a dedicated pump thread, behind a
//! non-blocking create/write/read/resize/rename/close interface.  Byte
//! histories, registry bookkeeping and the reassembly of UTF-8 sequences that
//! arrive split across read chunks are all specified and proved; the calls
//! into the operating system (pty allocation, process spawning, channel
//! transport) stand behind small trusted wrappers.

pub mod browser;
pub mod error;
pub mod network;
pub mod platform;
pub mod pty;
pub mod strutil;
pub mod terminal;
pub mod utf8_stream;
