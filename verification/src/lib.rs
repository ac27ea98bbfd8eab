//! Re-emit binary data as source-code literals or as hex/binary dumps.
//!
//! The library turns a byte sequence, a constant name and a tab size into
//! the text of a constant declaration for one of several target languages,
//! or into a plain hexadecimal or binary dump.

pub mod args;
pub mod language;
pub mod laws;
pub mod library;
