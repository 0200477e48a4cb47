//! The race overview: the roster and what seldom changes during a race.
use crate::measure::Measure;
use vstd::prelude::*;
use vstd::string::*;

verus! {

/// The roster of a race together with its dates, news and turnpoints.
///
/// Fetched once and then reused: nothing in it changes while the leaderboard
/// runs. URLs and colours are kept as the text that the feed holds.
#[derive(Debug, Clone, PartialEq)]
pub struct Overview {
    /// Where the 3D models of the map are found.
    pub three_dimensional_models: ThreeDimensionalModels,
    /// Where the status of the athletes is found.
    pub athlete_status: String,
    /// Every athlete that takes part in the race.
    pub athletes: Vec<Athlete>,
    /// Start and end of the race.
    pub clock_dates: DateRange,
    /// Where the news of the race are found.
    pub news: News,
    /// Start and end of the race, once more.
    pub race_dates: DateRange,
    /// The turnpoints of the route.
    pub turnpoints: Vec<TurnPoint>,
}

/// URLs of the 3D models that the map uses.
#[derive(Debug, Clone, PartialEq)]
pub struct ThreeDimensionalModels {
    pub map_icons: String,
    pub paraglider: String,
    pub status_icons: String,
}

/// One athlete of the roster.
#[derive(Debug, Clone, PartialEq)]
pub struct Athlete {
    /// Identifies the athlete for the whole race: a positive integer, as text.
    pub athlete_id: String,
    pub bio_url: String,
    pub chute_color: String,
    pub chute_strings: String,
    /// The two letters of the athlete's country.
    pub country_code: String,
    pub firstname: String,
    /// The first name, shortened: "M." for "Max".
    pub firstname_short: String,
    pub guy_bg_color: String,
    pub guy_outlines: String,
    pub hide: bool,
    pub lastname: String,
    pub lt_slug: String,
    pub marker_bg_color: String,
    pub marker_border_color: String,
    pub nationality: String,
    pub news: String,
    pub nightpasses_count: usize,
    pub portrait: String,
    pub portrait_retina: String,
    pub ranking_portrait: String,
    pub ranking_portrait_retina: String,
    pub status_bg_color: String,
    /// The athlete's team: a country code and a number, as in "AUT1". A team
    /// is one athlete, so this identifies the athlete as well.
    pub team: String,
    pub text_color: String,
    pub track_color: String,
}

/// Start and end of a span of time.
#[derive(Debug, Clone, Copy, PartialEq, Eq)]
pub struct DateRange {
    pub end_time: usize,
    pub start_time: usize,
}

/// Where the news are found.
#[derive(Debug, Clone, PartialEq)]
pub struct News {
    pub latest: String,
    pub list: String,
}

/// A point of the route that every athlete has to pass.
#[derive(Debug, Clone, PartialEq)]
pub struct TurnPoint {
    pub id: String,
    pub altitude: usize,
    pub altitude_on_mesh: usize,
    pub caption: String,
    pub country: String,
    /// The two letters of the turnpoint's country.
    pub country_code: String,
    pub cylinderradius: usize,
    pub dist_to_goal: Measure,
    pub header: String,
    pub hidden: Option<bool>,
    pub img: String,
    pub img_retina: String,
    pub lat: Measure,
    pub leg_dist: Measure,
    pub lng: Measure,
    pub lt_slug: String,
    pub polygon: Option<String>,
    pub sponsor_img: Option<String>,
    pub sponsor_img_retina: Option<String>,
    pub sponsor_url: Option<String>,
    pub sponsors: Option<Vec<Sponsor>>,
    pub tot_dist: Measure,
    pub visible_on_map: bool,
    pub weather: String,
}

/// A sponsor of a turnpoint.
#[derive(Debug, Clone, PartialEq)]
pub struct Sponsor {
    pub sponsor_img: String,
    pub sponsor_img_retina: String,
    pub sponsor_url: String,
}

/// Whether no two athletes of a roster share an id.
pub open spec fn distinct_ids(roster: Seq<Athlete>) -> bool {
    forall|i: int, j: int|
        0 <= i < j < roster.len() ==> (#[trigger] roster[i]).athlete_id@ != (
        #[trigger] roster[j]).athlete_id@
}

/// Whether no two athletes of a roster share a team.
pub open spec fn distinct_teams(roster: Seq<Athlete>) -> bool {
    forall|i: int, j: int|
        0 <= i < j < roster.len() ==> (#[trigger] roster[i]).team@ != (#[trigger] roster[j]).team@
}

impl Overview {
    /// Whether the roster names every athlete once: no id and no team occurs
    /// twice. Feeds are expected to keep to this; nothing in the type does.
    pub open spec fn well_formed(self) -> bool {
        distinct_ids(self.athletes@) && distinct_teams(self.athletes@)
    }

    /// Tests whether the roster names every athlete once.
    pub fn is_well_formed(&self) -> (ok: bool)
        ensures
            ok == self.well_formed(),
    {
        let roster = &self.athletes;
        let mut j: usize = 0;
        while j < roster.len()
            invariant
                j <= roster.len(),
                roster == &self.athletes,
                forall|a: int, b: int|
                    0 <= a < b < j ==> (#[trigger] roster[a]).athlete_id@ != (
                    #[trigger] roster[b]).athlete_id@ && roster[a].team@ != roster[b].team@,
            decreases roster.len() - j,
        {
            let mut i: usize = 0;
            while i < j
                invariant
                    i <= j < roster.len(),
                    roster == &self.athletes,
                    forall|a: int|
                        0 <= a < i ==> (#[trigger] roster[a]).athlete_id@ != roster[j as int].athlete_id@
                            && roster[a].team@ != roster[j as int].team@,
                decreases j - i,
            {
                if roster[i].athlete_id == roster[j].athlete_id || roster[i].team == roster[j].team {
                    return false;
                }
                i += 1;
            }
            j += 1;
        }
        true
    }
}

impl Athlete {
    /// Whether nothing is known of the athlete but id, names and team: every
    /// other text is empty, the athlete is not hidden and has used no night
    /// pass.
    pub open spec fn is_bare(self) -> bool {
        &&& self.bio_url@.len() == 0
        &&& self.chute_color@.len() == 0
        &&& self.chute_strings@.len() == 0
        &&& self.country_code@.len() == 0
        &&& self.firstname_short@.len() == 0
        &&& self.guy_bg_color@.len() == 0
        &&& self.guy_outlines@.len() == 0
        &&& !self.hide
        &&& self.lt_slug@.len() == 0
        &&& self.marker_bg_color@.len() == 0
        &&& self.marker_border_color@.len() == 0
        &&& self.nationality@.len() == 0
        &&& self.news@.len() == 0
        &&& self.nightpasses_count == 0
        &&& self.portrait@.len() == 0
        &&& self.portrait_retina@.len() == 0
        &&& self.ranking_portrait@.len() == 0
        &&& self.ranking_portrait_retina@.len() == 0
        &&& self.status_bg_color@.len() == 0
        &&& self.text_color@.len() == 0
        &&& self.track_color@.len() == 0
    }

    /// An athlete of whom only what the leaderboard shows is known.
    pub fn new(athlete_id: &str, firstname: &str, lastname: &str, team: &str) -> (athlete: Athlete)
        ensures
            athlete.athlete_id@ == athlete_id@,
            athlete.firstname@ == firstname@,
            athlete.lastname@ == lastname@,
            athlete.team@ == team@,
            athlete.is_bare(),
    {
        Athlete {
            athlete_id: String::from_str(athlete_id),
            bio_url: String::new(),
            chute_color: String::new(),
            chute_strings: String::new(),
            country_code: String::new(),
            firstname: String::from_str(firstname),
            firstname_short: String::new(),
            guy_bg_color: String::new(),
            guy_outlines: String::new(),
            hide: false,
            lastname: String::from_str(lastname),
            lt_slug: String::new(),
            marker_bg_color: String::new(),
            marker_border_color: String::new(),
            nationality: String::new(),
            news: String::new(),
            nightpasses_count: 0,
            portrait: String::new(),
            portrait_retina: String::new(),
            ranking_portrait: String::new(),
            ranking_portrait_retina: String::new(),
            status_bg_color: String::new(),
            team: String::from_str(team),
            text_color: String::new(),
            track_color: String::new(),
        }
    }
}

} // verus!
