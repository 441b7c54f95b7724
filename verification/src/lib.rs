//! Decoder for recorded game-session capture files ("demo files").
//!
//! A demo file is a fixed-layout metadata header followed by a stream of
//! tagged, self-describing records. The decoder reads the header once and
//! then replays the command stream far enough to determine the highest
//! simulation tick recorded before the stream terminates.

pub mod bytes;
pub mod cursor;
pub mod error;
pub mod header;
pub mod machine;
pub mod demo;
