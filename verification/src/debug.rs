//! The debug capability that a processing element may carry.

use vstd::prelude::*;

verus! {

/// Why debugging could not be switched on.
#[derive(Debug, Clone, Copy, PartialEq, Eq, Structural)]
pub enum Error {
    /// The processing element has no debug core.
    Unsupported,
    /// The debug core answered with the error number `errno`.
    Failed { errno: i32 },
}

/// A debug core of a processing element.
pub trait DebugControl: Sync + Send {
    /// Switches debugging on.
    fn enable_debug(&mut self) -> Result<(), Error>;
}

/// The debug capability of a processing element without a debug core: there is nothing to
/// switch on, and nothing fails.
#[derive(Debug, Clone, Copy, PartialEq, Eq, Structural)]
pub struct NonDebug {}

impl DebugControl for NonDebug {
    fn enable_debug(&mut self) -> (r: Result<(), Error>)
        ensures
            r == Ok::<(), Error>(()),
    {
        Ok(())
    }
}

} // verus!
