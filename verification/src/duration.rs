//! How long an effect on an entity persists.

use vstd::prelude::*;

verus! {

/// Describes how long an effect (e.g., a status) persists: until removed
/// otherwise, for a number of movement steps of the owning entity, or for a
/// number of game updates.
#[derive(Clone, Copy, Debug, PartialEq, Eq, Structural)]
pub enum Duration {
    Infinite,
    Steps(i32),
    Updates(i32),
}

impl Duration {
    /// One driving event has occurred (a movement step for `Steps`, a game
    /// update for `Updates`): returns the duration that remains, or `None`
    /// once nothing remains and the effect is to be removed. `Infinite`
    /// never runs out.
    pub fn decrement(self) -> (r: Option<Duration>)
        ensures
            match self {
                Duration::Infinite => r == Some(Duration::Infinite),
                Duration::Steps(n) => r == if n > 1 {
                    Some(Duration::Steps((n - 1) as i32))
                } else {
                    None::<Duration>
                },
                Duration::Updates(n) => r == if n > 1 {
                    Some(Duration::Updates((n - 1) as i32))
                } else {
                    None::<Duration>
                },
            },
    {
        match self {
            Duration::Infinite => Some(Duration::Infinite),
            Duration::Steps(n) => if n > 1 {
                Some(Duration::Steps(n - 1))
            } else {
                None
            },
            Duration::Updates(n) => if n > 1 {
                Some(Duration::Updates(n - 1))
            } else {
                None
            },
        }
    }
}

} // verus!
