//! Decode failures. Only unrecoverable conditions are errors: running past
//! the end of the buffer, a command tag outside the known set, and a relative
//! seek that would move the cursor out of the representable range.

use vstd::prelude::*;

verus! {

/// A fatal decode failure. `UnexpectedEndOfData` is raised by any fixed-width
/// or declared-length read that runs past the buffer end. `UnrecognizedTag`
/// carries the offending tag value and the byte offset at which that tag
/// sits. `InvalidSeek` is raised by a relative seek whose target
/// lies below zero or beyond the addressable range. `StalledStream` is
/// raised when the command stream has been walked for more steps than any
/// stream whose records move the cursor forward could ever need: the stream
/// seeks in a cycle and no further progress is possible.
#[derive(Clone, Copy, Debug, PartialEq, Eq, Structural)]
pub enum DemoError {
    UnexpectedEndOfData,
    UnrecognizedTag { tag: u8, offset: usize },
    InvalidSeek,
    StalledStream,
}

impl DemoError {
    /// A short human-readable description of the failure.
    pub fn describe(&self) -> (s: String)
        ensures
            s@.len() > 0,
    {
        match self {
            DemoError::UnexpectedEndOfData => {
                let s = String::from_str("unexpected end of data");
                proof {
                    reveal_strlit("unexpected end of data");
                }
                s
            },
            DemoError::UnrecognizedTag { .. } => {
                let s = String::from_str("unrecognized command tag");
                proof {
                    reveal_strlit("unrecognized command tag");
                }
                s
            },
            DemoError::InvalidSeek => {
                let s = String::from_str("invalid seek");
                proof {
                    reveal_strlit("invalid seek");
                }
                s
            },
            DemoError::StalledStream => {
                let s = String::from_str("command stream makes no progress");
                proof {
                    reveal_strlit("command stream makes no progress");
                }
                s
            },
        }
    }
}

} // verus!
