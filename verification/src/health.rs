use vstd::prelude::*;

verus! {

/// Three-level health grade of a TCP metric, ordered `Good < Warn < Bad`.
#[derive(Debug, Clone, Copy, PartialEq, Eq, PartialOrd, Ord, Hash, Structural)]
pub enum Health {
    Good,
    Warn,
    Bad,
}

/// Display colour chosen for a grade or a table cell.
#[derive(Debug, Clone, Copy, PartialEq, Eq, Hash, Structural)]
pub enum Color {
    Green,
    Yellow,
    LightRed,
    Orange,
    Red,
    DarkGray,
}

impl Health {
    /// Position of the grade in the order `Good < Warn < Bad`.
    pub open spec fn rank(self) -> nat {
        match self {
            Health::Good => 0,
            Health::Warn => 1,
            Health::Bad => 2,
        }
    }

    /// The worse (higher-ranked) of two grades.
    pub open spec fn spec_worse(self, other: Health) -> Health {
        if self.rank() >= other.rank() { self } else { other }
    }

    pub fn rank_of(self) -> (r: u8)
        ensures r as nat == self.rank(),
    {
        match self {
            Health::Good => 0,
            Health::Warn => 1,
            Health::Bad => 2,
        }
    }

    /// The worse of `self` and `other`.
    pub fn worse(self, other: Health) -> (r: Health)
        ensures r == self.spec_worse(other),
    {
        if self.rank_of() >= other.rank_of() { self } else { other }
    }

    pub fn color(self) -> (c: Color)
        ensures
            c == match self {
                Health::Good => Color::Green,
                Health::Warn => Color::Yellow,
                Health::Bad => Color::LightRed,
            },
    {
        match self {
            Health::Good => Color::Green,
            Health::Warn => Color::Yellow,
            Health::Bad => Color::LightRed,
        }
    }

    pub fn badge(self) -> (s: &'static str)
        ensures
            s@ == match self {
                Health::Good => "✓"@,
                Health::Warn => "!"@,
                Health::Bad => "✗"@,
            },
    {
        match self {
            Health::Good => "✓",
            Health::Warn => "!",
            Health::Bad => "✗",
        }
    }

    pub fn dot(self) -> (s: &'static str)
        ensures s@ == "●"@,
    {
        "●"
    }
}

} // verus!
