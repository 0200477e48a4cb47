//! One row of the leaderboard, and the marks that show how it changed.
use crate::measure::Measure;
use crate::race_status::AthleteStatus;
use crate::text::{decimal, push_decimal};
use std::cmp::Ordering;
use vstd::prelude::*;
use vstd::string::*;

verus! {

/// What the leaderboard shows of one athlete.
///
/// A row is built anew for every refresh. Altitude and speed are `None` where
/// nothing is known of them: zero is a value like any other.
#[derive(Debug, Clone, PartialEq)]
pub struct AthleteSummary {
    /// First and last name, and behind them the mark of a change.
    pub full_name: String,
    /// The athlete's team, by which a row is found again in the next refresh.
    pub team: String,
    pub altitude: Option<usize>,
    pub speed: Option<usize>,
    /// The distance to the goal, in kilometres.
    pub distance: Measure,
    /// The athlete's place, counted from 0, among all athletes ordered by
    /// their distance to the goal.
    pub rank: usize,
    pub status: AthleteStatus,
    /// How long ago the status was measured, in words.
    pub last_update: String,
}

/// What a row holds, its texts as sequences of characters.
pub ghost struct SummaryView {
    pub full_name: Seq<char>,
    pub team: Seq<char>,
    pub altitude: Option<usize>,
    pub speed: Option<usize>,
    pub distance: Measure,
    pub rank: usize,
    pub status: AthleteStatus,
    pub last_update: Seq<char>,
}

impl View for AthleteSummary {
    type V = SummaryView;

    open spec fn view(&self) -> SummaryView {
        SummaryView {
            full_name: self.full_name@,
            team: self.team@,
            altitude: self.altitude,
            speed: self.speed,
            distance: self.distance,
            rank: self.rank,
            status: self.status,
            last_update: self.last_update@,
        }
    }
}

/// The rows of a board, each as what it holds.
pub open spec fn views(rows: Seq<AthleteSummary>) -> Seq<SummaryView> {
    Seq::new(rows.len(), |i: int| rows[i]@)
}

/// An altitude or a speed as a table shows it: the number, or a dash where it
/// is unknown, so that nothing unknown reads as zero.
pub open spec fn reading_text(value: Option<usize>) -> Seq<char> {
    match value {
        Some(n) => decimal(n as nat),
        None => "-"@,
    }
}

/// How a row differs from the row of the same team one refresh earlier.
#[derive(Debug, Clone, Copy, PartialEq, Eq, Structural)]
pub enum Change {
    /// The athlete has a better place, or was not on the board before.
    RankUp,
    /// The athlete has a worse place.
    RankDown,
    /// Same place, and closer to the leader than before.
    TendencyUp,
    /// Same place, and farther from the leader than before.
    TendencyDown,
    NoChange,
}

impl Change {
    /// The mark that a change puts behind the name.
    pub open spec fn glyph(self) -> Seq<char> {
        match self {
            Change::RankUp => " ▲ "@,
            Change::RankDown => " ▼ "@,
            Change::TendencyUp => " △"@,
            Change::TendencyDown => " ▽"@,
            Change::NoChange => Seq::empty(),
        }
    }

    /// The change of a row whose place went from `previous_rank` to `rank`.
    /// The place decides: a greater number is a worse place. Where the place
    /// is the same, `drift` decides: how much farther from the leader the
    /// athlete is than before, or `None` where that cannot be told.
    pub open spec fn classify(rank: usize, previous_rank: usize, drift: Option<int>) -> Change {
        if rank > previous_rank {
            Change::RankDown
        } else if rank < previous_rank {
            Change::RankUp
        } else {
            match drift {
                Some(d) => if d > 0 {
                    Change::TendencyDown
                } else if d < 0 {
                    Change::TendencyUp
                } else {
                    Change::NoChange
                },
                None => Change::NoChange,
            }
        }
    }

    /// The drift that a comparison of the distance to the leader now with
    /// the distance to the leader then stands for.
    pub open spec fn drift_of(tendency: Option<Ordering>) -> Option<int> {
        match tendency {
            Some(Ordering::Greater) => Some(1),
            Some(Ordering::Less) => Some(-1),
            Some(Ordering::Equal) => Some(0),
            None => None,
        }
    }

    /// Decides the change of a row from its places and its drift.
    pub fn decide(rank: usize, previous_rank: usize, drift: Option<i128>) -> (kind: Change)
        ensures
            kind == Change::classify(
                rank,
                previous_rank,
                match drift {
                    Some(d) => Some(d as int),
                    None => None,
                },
            ),
    {
        if rank > previous_rank {
            Change::RankDown
        } else if rank < previous_rank {
            Change::RankUp
        } else {
            match drift {
                Some(d) => if d > 0 {
                    Change::TendencyDown
                } else if d < 0 {
                    Change::TendencyUp
                } else {
                    Change::NoChange
                },
                None => Change::NoChange,
            }
        }
    }
}

impl SummaryView {
    /// The row with the mark of `kind` behind its name, and nothing else
    /// changed.
    pub open spec fn marked(self, kind: Change) -> SummaryView {
        SummaryView { full_name: self.full_name + kind.glyph(), ..self }
    }
}

/// An altitude or a speed as text.
pub fn show_reading(value: Option<usize>) -> (text: String)
    ensures
        text@ == reading_text(value),
{
    match value {
        Some(n) => {
            let mut text = String::new();
            push_decimal(&mut text, n as u64);
            text
        },
        None => String::from_str("-"),
    }
}

impl AthleteSummary {
    /// A copy of the row.
    pub fn duplicate(&self) -> (copy: AthleteSummary)
        ensures
            copy == *self,
    {
        AthleteSummary {
            full_name: self.full_name.clone(),
            team: self.team.clone(),
            altitude: self.altitude,
            speed: self.speed,
            distance: self.distance,
            rank: self.rank,
            status: self.status,
            last_update: self.last_update.clone(),
        }
    }

    /// The altitude as a table shows it.
    pub fn altitude_text(&self) -> (text: String)
        ensures
            text@ == reading_text(self.altitude),
    {
        show_reading(self.altitude)
    }

    /// The speed as a table shows it.
    pub fn speed_text(&self) -> (text: String)
        ensures
            text@ == reading_text(self.speed),
    {
        show_reading(self.speed)
    }

    /// Whether two rows show the same, mark included.
    pub fn same_as(&self, other: &AthleteSummary) -> (same: bool)
        ensures
            same == (self@ == other@),
    {
        self.full_name == other.full_name && self.team == other.team && self.altitude
            == other.altitude && self.speed == other.speed && self.distance == other.distance
            && self.rank == other.rank && self.status == other.status && self.last_update
            == other.last_update
    }

    /// Puts the mark of `kind` behind the name. Place and distance stay as
    /// they are, so a marked row still compares with the next refresh.
    pub fn mark(&mut self, kind: Change)
        ensures
            final(self)@ == old(self)@.marked(kind),
    {
        match kind {
            Change::RankUp => self.full_name.append(" ▲ "),
            Change::RankDown => self.full_name.append(" ▼ "),
            Change::TendencyUp => self.full_name.append(" △"),
            Change::TendencyDown => self.full_name.append(" ▽"),
            Change::NoChange => {},
        }
    }

    /// Marks the row with its change against `other`, the row of the same
    /// team one refresh earlier. `tendency` says how the distance to the
    /// leader now compares to the distance to the leader then: `Greater`
    /// where the athlete fell back, `None` where the two do not compare.
    pub fn mark_if_changed(&mut self, other: &AthleteSummary, tendency: Option<Ordering>)
        ensures
            final(self)@ == old(self)@.marked(
                Change::classify(old(self).rank, other.rank, Change::drift_of(tendency)),
            ),
    {
        let drift: Option<i128> = match tendency {
            Some(Ordering::Greater) => Some(1),
            Some(Ordering::Less) => Some(-1),
            Some(Ordering::Equal) => Some(0),
            None => None,
        };
        self.mark(Change::decide(self.rank, other.rank, drift));
    }
}

} // verus!
