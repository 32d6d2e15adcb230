//! Score, cleared lines and level, and the tables keyed by level.
use vstd::prelude::*;

verus! {

/// The score state of one game. `level` follows `lines`: it is `lines / 10`
/// after every lock that clears rows.
#[derive(Clone, Copy, Debug, PartialEq, Eq, Structural)]
pub struct GameSession {
    pub level: u8,
    pub score: u32,
    pub lines: u32,
}

/// Points for clearing `cleared` rows with one lock at `level`.
pub open spec fn line_award(cleared: int, level: int) -> int {
    if cleared == 1 {
        40 * (level + 1)
    } else if cleared == 2 {
        100 * (level + 1)
    } else if cleared == 3 {
        300 * (level + 1)
    } else if cleared == 4 {
        1200 * (level + 1)
    } else {
        0
    }
}

pub open spec fn cap_u32(n: int) -> u32 {
    if n > u32::MAX {
        u32::MAX
    } else {
        n as u32
    }
}

/// The session after a lock that cleared `cleared` rows: the award uses the
/// level from before the clear; score and line total stop at `u32::MAX` and
/// the level at `u8::MAX`.
pub open spec fn scored(s: GameSession, cleared: int) -> GameSession {
    let lines = cap_u32(s.lines + cleared);
    GameSession {
        level: if lines / 10 > u8::MAX {
            u8::MAX
        } else {
            (lines / 10) as u8
        },
        score: cap_u32(s.score + line_award(cleared, s.level as int)),
        lines,
    }
}

/// Ticks before the falling piece drops by one row at `level`.
pub open spec fn gravity_delay(level: u8) -> i8 {
    match level {
        0 => 53,
        1 => 49,
        2 => 45,
        3 => 41,
        4 => 37,
        5 => 33,
        6 => 28,
        7 => 22,
        8 => 17,
        9 => 11,
        10 => 10,
        11 => 9,
        12 => 8,
        13 => 7,
        14 => 6,
        15 => 6,
        16 => 5,
        17 => 5,
        18 => 4,
        19 => 4,
        _ => 3,
    }
}

/// Ticks before the falling piece drops by one row at `level`.
pub fn drop_delay(level: u8) -> (r: i8)
    ensures
        r == gravity_delay(level),
        3 <= r <= 53,
{
    match level {
        0 => 53,
        1 => 49,
        2 => 45,
        3 => 41,
        4 => 37,
        5 => 33,
        6 => 28,
        7 => 22,
        8 => 17,
        9 => 11,
        10 => 10,
        11 => 9,
        12 => 8,
        13 => 7,
        14 => 6,
        15 => 6,
        16 => 5,
        17 => 5,
        18 => 4,
        19 => 4,
        _ => 3,
    }
}

impl GameSession {
    /// Adds the award for `cleared` rows at the current level, adds the rows
    /// to the line total and recomputes the level from it.
    pub fn record_clear(&mut self, cleared: u8)
        ensures
            *final(self) == scored(*old(self), cleared as int),
    {
        let factor: u32 = self.level as u32 + 1;
        let award: u32 = match cleared {
            1 => 40 * factor,
            2 => 100 * factor,
            3 => 300 * factor,
            4 => 1200 * factor,
            _ => 0,
        };
        self.score = self.score.saturating_add(award);
        self.lines = self.lines.saturating_add(cleared as u32);
        let level = self.lines / 10;
        self.level = if level > u8::MAX as u32 {
            u8::MAX
        } else {
            level as u8
        };
    }
}

} // verus!
