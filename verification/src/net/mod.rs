//! What peers say to each other and to the relay: chunk frames, stream
//! handshakes, discovery announcements and the signaling exchange.
pub mod discovery;
pub mod parallel;
pub mod signaling;
