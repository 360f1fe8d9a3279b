//! A small "system fetch" library: each module resolves or formats one fact
//! about the running machine (hostname line, operating system line, login
//! shell, uptime, terminal colour swatch) as an ANSI-coloured output line.
//!
//! All functions here work on plain values; reading environment variables,
//! spawning the helper commands and querying the kernel is left to the
//! binary around this library.

pub mod numerals;
pub mod text;
pub mod facts;
pub mod os;
pub mod swatch;
