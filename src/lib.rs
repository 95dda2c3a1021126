//! Sequencing core of a powers-of-tau ceremony: the transcript that
//! accumulates contributions, the verification of a candidate contribution,
//! the lobby that admits one contributor at a time, the coordinator that
//! ties them together, and the text form of points and signatures in the
//! persisted transcript.

pub mod codec;
pub mod coordinator;
pub mod engine;
pub mod group;
pub mod lobby;
pub mod transcript;
