//! Verified core of an end-to-end encrypted peer-to-peer file transfer tool.
use vstd::prelude::*;

pub mod bitmap;
pub mod cli;
pub mod codec;
pub mod crypto;
pub mod error;
pub mod framing;
pub mod net;
pub mod relay;
pub mod text;
pub mod transfer;
pub mod tui;
pub mod types;
pub mod wordlist;
