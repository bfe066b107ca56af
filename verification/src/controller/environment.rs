use vstd::prelude::*;

verus! {

/// Where the bot runs. It is chosen once, when the controllers are made.
#[derive(Copy, Clone, Debug, PartialEq, Eq, Hash, Structural)]
pub enum Environment {
    /// Every controller stands for its own target.
    Production,
    /// Every controller counts as connected and stands for the staging guild.
    Staging,
}

} // verus!
