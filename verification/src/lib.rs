//! A reactor core for a wormhole client.
//!
//! The protocol state machine of a client asks for timers and websocket
//! connections by handing out actions, and learns what became of them from
//! events. This crate holds every decision that lies between the two: which
//! handles are live, what each action asks of the runtime, which reports of
//! the runtime reach the protocol, and how wire frames and events translate
//! into one another. It performs no input or output itself; a runtime drives
//! it with plain values and carries out the effects it returns.
//!
//! Beside the reactor stands the word list from which wormhole codes are
//! made and completed.

pub mod connector;
pub mod dispatcher;
pub mod matching;
pub mod pgp_words;
pub mod protocol;
pub mod registry;
pub mod text;
pub mod trace;
pub mod wordlist;

pub use connector::{InboundLoop, OutboundLoop};
pub use dispatcher::{AsyncStdIO, WormholeIO};
pub use protocol::{
    Frame, IOAction, IOEffect, IOError, IOEvent, Input, Link, Output, TimerHandle, WSControl,
    WSHandle,
};
pub use registry::Registry;
pub use matching::CompletionStrategy;
pub use wordlist::{default_wordlist, extract_partial_from_prefix, load_pgpwords, Wordlist};
