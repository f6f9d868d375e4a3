//! The four ways in which a seed is mutated.

use vstd::prelude::*;

verus! {

/// A mutation strategy.
#[derive(Clone, Copy, Debug, PartialEq, Eq, Structural)]
pub enum Strategy {
    BitFlip,
    Insertion,
    Deletion,
    Magic,
}

/// How many strategies there are.
pub const STRATEGY_COUNT: usize = 4;

impl Strategy {
    /// The name under which a strategy appears in file names and tallies.
    pub open spec fn label_text(self) -> Seq<char> {
        match self {
            Strategy::BitFlip => "bitflip"@,
            Strategy::Insertion => "insertion"@,
            Strategy::Deletion => "deletion"@,
            Strategy::Magic => "magic"@,
        }
    }

    /// The strategy's name.
    pub fn label(&self) -> (name: &'static str)
        ensures
            name@ == self.label_text(),
    {
        match self {
            Strategy::BitFlip => "bitflip",
            Strategy::Insertion => "insertion",
            Strategy::Deletion => "deletion",
            Strategy::Magic => "magic",
        }
    }

    /// The strategy that a draw from `0..STRATEGY_COUNT` stands for.
    pub open spec fn of_index(index: int) -> Strategy {
        if index == 0 {
            Strategy::BitFlip
        } else if index == 1 {
            Strategy::Insertion
        } else if index == 2 {
            Strategy::Deletion
        } else {
            Strategy::Magic
        }
    }

    /// The strategy with the given index, if there is one.
    pub fn from_index(index: usize) -> (chosen: Option<Strategy>)
        ensures
            index < STRATEGY_COUNT ==> chosen == Some(Strategy::of_index(index as int)),
            index >= STRATEGY_COUNT ==> chosen is None,
    {
        if index == 0 {
            Some(Strategy::BitFlip)
        } else if index == 1 {
            Some(Strategy::Insertion)
        } else if index == 2 {
            Some(Strategy::Deletion)
        } else if index == 3 {
            Some(Strategy::Magic)
        } else {
            None
        }
    }
}

} // verus!
