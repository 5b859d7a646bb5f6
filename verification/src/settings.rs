use vstd::prelude::*;

verus! {

/// The colour scheme the user picked.
#[derive(Debug, Clone, Copy, PartialEq, Eq, Structural)]
pub enum Theme {
    System,
    Light,
    Dark,
}

/// The drop-down index of a theme.
pub open spec fn theme_index(t: Theme) -> u32 {
    match t {
        Theme::System => 0,
        Theme::Light => 1,
        Theme::Dark => 2,
    }
}

/// The theme a drop-down index selects; unknown indices fall back to
/// following the system.
pub open spec fn theme_of_index(i: u32) -> Theme {
    if i == 1 {
        Theme::Light
    } else if i == 2 {
        Theme::Dark
    } else {
        Theme::System
    }
}

impl Theme {
    pub fn index(self) -> (i: u32)
        ensures
            i == theme_index(self),
    {
        match self {
            Self::System => 0,
            Self::Light => 1,
            Self::Dark => 2,
        }
    }

    pub fn from_index(i: u32) -> (t: Self)
        ensures
            t == theme_of_index(i),
    {
        match i {
            1 => Self::Light,
            2 => Self::Dark,
            _ => Self::System,
        }
    }
}

impl Default for Theme {
    fn default() -> (t: Self)
        ensures
            t == Theme::System,
    {
        Theme::System
    }
}

/// A theme survives the trip through its drop-down index.
pub proof fn lemma_theme_index_round_trip(t: Theme)
    ensures
        theme_of_index(theme_index(t)) == t,
{
}

/// An index survives the trip through a theme exactly when it names one;
/// every other index reads back as the system theme's index, 0.
pub proof fn lemma_index_theme_round_trip(i: u32)
    ensures
        i <= 2 ==> theme_index(theme_of_index(i)) == i,
        i > 2 ==> theme_index(theme_of_index(i)) == 0,
{
}

} // verus!
