//! What the status feed says about each athlete.
use crate::measure::Measure;
use vstd::prelude::*;
use vstd::string::*;

verus! {

/// The status of every athlete at one minute of a race day.
#[derive(Debug, Clone, PartialEq)]
pub struct RaceStatusReplay {
    /// The minute, in milliseconds since the epoch.
    pub timestamp: usize,
    pub status: Vec<RaceStatus>,
}

/// The latest that is known of one athlete.
#[derive(Debug, Clone, PartialEq)]
pub struct RaceStatus {
    pub athlete_id: String,
    /// When this was measured, in milliseconds since the epoch.
    pub timestamp: usize,
    pub status: AthleteStatus,
    /// How far the athlete is from the goal, in kilometres. Smaller is closer
    /// to the finish.
    pub distance_to_goal: Measure,
    pub altitude: usize,
    pub speed: usize,
}

/// How an athlete is moving at the moment.
///
/// `Out` (disqualified or withdrawn) and `Automatic` (undetermined) are states
/// to display like the others, not errors.
#[derive(Debug, Clone, Copy, PartialEq, Eq, Structural)]
pub enum AthleteStatus {
    Rest,
    Fly,
    Hike,
    Automatic,
    Out,
}

impl AthleteStatus {
    /// The verb that describes the status in a sentence.
    pub open spec fn verb(self) -> Seq<char> {
        match self {
            AthleteStatus::Rest => "resting"@,
            AthleteStatus::Fly => "flying"@,
            AthleteStatus::Hike => "hiking"@,
            AthleteStatus::Automatic => "<unknown>"@,
            AthleteStatus::Out => "is out"@,
        }
    }

    /// The name of the status as a table shows it.
    pub open spec fn name(self) -> Seq<char> {
        match self {
            AthleteStatus::Rest => "Rest"@,
            AthleteStatus::Fly => "Fly"@,
            AthleteStatus::Hike => "Hike"@,
            AthleteStatus::Automatic => "Automatic"@,
            AthleteStatus::Out => "Out"@,
        }
    }

    /// Describes the status with a verb, for use in a notification.
    pub fn verbalize(&self) -> (text: String)
        ensures
            text@ == self.verb(),
    {
        let verb: &str = match self {
            AthleteStatus::Rest => "resting",
            AthleteStatus::Fly => "flying",
            AthleteStatus::Hike => "hiking",
            AthleteStatus::Automatic => "<unknown>",
            AthleteStatus::Out => "is out",
        };
        String::from_str(verb)
    }

    /// The name of the status, for a table cell.
    pub fn label(&self) -> (text: String)
        ensures
            text@ == self.name(),
    {
        let name: &str = match self {
            AthleteStatus::Rest => "Rest",
            AthleteStatus::Fly => "Fly",
            AthleteStatus::Hike => "Hike",
            AthleteStatus::Automatic => "Automatic",
            AthleteStatus::Out => "Out",
        };
        String::from_str(name)
    }
}

} // verus!
