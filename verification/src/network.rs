//! Shared vocabulary of the platform's wire protocols.

use vstd::prelude::*;

verus! {

/// The lifecycle stage of a game stored on a server.
#[derive(Debug, Clone, Copy, PartialEq, Eq, Structural)]
pub enum GameStatus {
    /// The game has not started yet: it is missing players, or some other
    /// condition has not been met.
    Open,
    /// The game is in progress.
    Running,
    /// The game has completed, with a decided result.
    Complete,
}

} // verus!
