//! Character classes shared by the ranking, guild and script systems.
use vstd::prelude::*;

verus! {

/// A character class.
#[derive(Clone, Copy, Debug, PartialEq, Eq, Structural)]
pub enum Job {
    Warrior,
    Wizard,
    Taoist,
    Assassin,
    Archer,
}

/// The class's number in the client protocol (0 = Warrior .. 4 = Archer).
pub open spec fn job_index(job: Job) -> u8 {
    match job {
        Job::Warrior => 0,
        Job::Wizard => 1,
        Job::Taoist => 2,
        Job::Assassin => 3,
        Job::Archer => 4,
    }
}

impl Job {
    /// The class's number in the client protocol.
    pub fn index(self) -> (r: u8)
        ensures
            r == job_index(self),
    {
        match self {
            Job::Warrior => 0,
            Job::Wizard => 1,
            Job::Taoist => 2,
            Job::Assassin => 3,
            Job::Archer => 4,
        }
    }
}

} // verus!
