use vstd::prelude::*;

verus! {

/// How much diagnostic output is shown; each level shows all that the lower ones do.
#[derive(Clone, Copy, Debug, PartialEq, Eq, Structural)]
pub enum LogLevel {
    Norm,
    Min,
    Mid,
    Max,
}

pub open spec fn rank(l: LogLevel) -> int {
    match l {
        LogLevel::Norm => 0,
        LogLevel::Min => 1,
        LogLevel::Mid => 2,
        LogLevel::Max => 3,
    }
}

/// The level with the given number, from 0 (normal) to 3 (maximal).
pub open spec fn level_numbered(n: i32) -> Option<LogLevel> {
    if n == 0 {
        Some(LogLevel::Norm)
    } else if n == 1 {
        Some(LogLevel::Min)
    } else if n == 2 {
        Some(LogLevel::Mid)
    } else if n == 3 {
        Some(LogLevel::Max)
    } else {
        None
    }
}

impl LogLevel {
    pub fn from_number(n: i32) -> (r: Option<LogLevel>)
        ensures
            r == level_numbered(n),
    {
        match n {
            0 => Some(LogLevel::Norm),
            1 => Some(LogLevel::Min),
            2 => Some(LogLevel::Mid),
            3 => Some(LogLevel::Max),
            _ => None,
        }
    }

    pub fn number(self) -> (r: i32)
        ensures
            r == rank(self),
    {
        match self {
            LogLevel::Norm => 0,
            LogLevel::Min => 1,
            LogLevel::Mid => 2,
            LogLevel::Max => 3,
        }
    }
}

/// Decides which diagnostic messages are shown.
pub struct Logger {
    pub level: LogLevel,
}

impl Logger {
    /// A logger at the numbered level; an unknown number gives the normal level.
    pub fn new(level: i32) -> (r: Self)
        ensures
            r.level == match level_numbered(level) {
                Some(l) => l,
                None => LogLevel::Norm,
            },
    {
        match LogLevel::from_number(level) {
            Some(l) => Logger { level: l },
            None => Logger { level: LogLevel::Norm },
        }
    }

    /// Whether a message of the given tier is shown.
    pub fn shows(&self, tier: LogLevel) -> (r: bool)
        ensures
            r == (rank(self.level) >= rank(tier)),
    {
        self.level.number() >= tier.number()
    }
}

} // verus!
