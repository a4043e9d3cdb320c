//! What a player chooses before a game starts.

use crate::timing::{SOFT_DROP_SPEED, TIME_PER_SECOND};
use vstd::prelude::*;

verus! {

/// How fast pieces fall.
#[derive(Clone, Copy, Debug, PartialEq, Eq, Structural)]
pub enum Difficulty {
    Easy,
    Normal,
    Hard,
}

/// The kind of game. It is recorded and handed on; no rule depends on it.
#[derive(Clone, Copy, Debug, PartialEq, Eq, Structural)]
pub enum GameMode {
    Classic,
    Timed,
    Endless,
}

impl Difficulty {
    /// The difficulty after this one; after the hardest comes the easiest.
    pub open spec fn spec_next(self) -> Difficulty {
        match self {
            Difficulty::Easy => Difficulty::Normal,
            Difficulty::Normal => Difficulty::Hard,
            Difficulty::Hard => Difficulty::Easy,
        }
    }

    /// The difficulty before this one; before the easiest comes the hardest.
    pub open spec fn spec_prev(self) -> Difficulty {
        match self {
            Difficulty::Easy => Difficulty::Hard,
            Difficulty::Normal => Difficulty::Easy,
            Difficulty::Hard => Difficulty::Normal,
        }
    }

    /// The name shown to the player.
    pub open spec fn name(self) -> Seq<char> {
        match self {
            Difficulty::Easy => "Easy"@,
            Difficulty::Normal => "Normal"@,
            Difficulty::Hard => "Hard"@,
        }
    }

    /// Rows per second that a piece falls by itself.
    pub open spec fn cells_per_second(self) -> nat {
        match self {
            Difficulty::Easy => 2,
            Difficulty::Normal => 3,
            Difficulty::Hard => 4,
        }
    }

    /// The difficulty after this one; after the hardest comes the easiest.
    #[verifier::when_used_as_spec(spec_next)]
    pub fn next(self) -> (r: Difficulty)
        ensures
            r == self.spec_next(),
    {
        match self {
            Difficulty::Easy => Difficulty::Normal,
            Difficulty::Normal => Difficulty::Hard,
            Difficulty::Hard => Difficulty::Easy,
        }
    }

    /// The difficulty before this one; before the easiest comes the hardest.
    #[verifier::when_used_as_spec(spec_prev)]
    pub fn prev(self) -> (r: Difficulty)
        ensures
            r == self.spec_prev(),
    {
        match self {
            Difficulty::Easy => Difficulty::Hard,
            Difficulty::Normal => Difficulty::Easy,
            Difficulty::Hard => Difficulty::Normal,
        }
    }

    /// The name shown to the player.
    pub fn as_str(self) -> (r: &'static str)
        ensures
            r@ == self.name(),
    {
        match self {
            Difficulty::Easy => "Easy",
            Difficulty::Normal => "Normal",
            Difficulty::Hard => "Hard",
        }
    }

    /// Rows per second that a piece falls by itself.
    pub fn fall_speed(self) -> (r: u64)
        ensures
            r == self.cells_per_second(),
    {
        match self {
            Difficulty::Easy => 2,
            Difficulty::Normal => 3,
            Difficulty::Hard => 4,
        }
    }

    /// Stepping forward and back, or back and forward, changes nothing, and
    /// three steps forward come round.
    pub proof fn lemma_cycle(self)
        ensures
            self.next().prev() == self,
            self.prev().next() == self,
            self.next().next().next() == self,
    {
    }
}

impl GameMode {
    /// The mode after this one; after the last comes the first.
    pub open spec fn spec_next(self) -> GameMode {
        match self {
            GameMode::Classic => GameMode::Timed,
            GameMode::Timed => GameMode::Endless,
            GameMode::Endless => GameMode::Classic,
        }
    }

    /// The mode before this one; before the first comes the last.
    pub open spec fn spec_prev(self) -> GameMode {
        match self {
            GameMode::Classic => GameMode::Endless,
            GameMode::Timed => GameMode::Classic,
            GameMode::Endless => GameMode::Timed,
        }
    }

    /// The name shown to the player.
    pub open spec fn name(self) -> Seq<char> {
        match self {
            GameMode::Classic => "Classic"@,
            GameMode::Timed => "Timed"@,
            GameMode::Endless => "Endless"@,
        }
    }

    /// The mode after this one; after the last comes the first.
    #[verifier::when_used_as_spec(spec_next)]
    pub fn next(self) -> (r: GameMode)
        ensures
            r == self.spec_next(),
    {
        match self {
            GameMode::Classic => GameMode::Timed,
            GameMode::Timed => GameMode::Endless,
            GameMode::Endless => GameMode::Classic,
        }
    }

    /// The mode before this one; before the first comes the last.
    #[verifier::when_used_as_spec(spec_prev)]
    pub fn prev(self) -> (r: GameMode)
        ensures
            r == self.spec_prev(),
    {
        match self {
            GameMode::Classic => GameMode::Endless,
            GameMode::Timed => GameMode::Classic,
            GameMode::Endless => GameMode::Timed,
        }
    }

    /// The name shown to the player.
    pub fn as_str(self) -> (r: &'static str)
        ensures
            r@ == self.name(),
    {
        match self {
            GameMode::Classic => "Classic",
            GameMode::Timed => "Timed",
            GameMode::Endless => "Endless",
        }
    }

    /// Stepping forward and back, or back and forward, changes nothing, and
    /// three steps forward come round.
    pub proof fn lemma_cycle(self)
        ensures
            self.next().prev() == self,
            self.prev().next() == self,
            self.next().next().next() == self,
    {
    }
}

/// The time a piece takes to fall one row: a second divided by the rows per
/// second of the difficulty, or of the soft drop while that is held.
pub open spec fn fall_interval(difficulty: Difficulty, soft_drop: bool) -> nat {
    if soft_drop {
        (TIME_PER_SECOND / SOFT_DROP_SPEED) as nat
    } else {
        (TIME_PER_SECOND as nat) / difficulty.cells_per_second()
    }
}

/// The time a piece takes to fall one row.
pub fn compute_fall_interval(difficulty: Difficulty, soft_drop: bool) -> (r: u64)
    ensures
        r == fall_interval(difficulty, soft_drop),
        r > 0,
{
    let speed: u64 = if soft_drop {
        SOFT_DROP_SPEED
    } else {
        difficulty.fall_speed()
    };
    assert(speed == 2 || speed == 3 || speed == 4 || speed == 15);
    assert(TIME_PER_SECOND / 2 == 1_500_000 && TIME_PER_SECOND / 3 == 1_000_000 && TIME_PER_SECOND / 4
        == 750_000 && TIME_PER_SECOND / 15 == 200_000);
    TIME_PER_SECOND / speed
}

} // verus!
