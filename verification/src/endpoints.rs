//! Where the feeds of the race are found.
use vstd::prelude::*;
use vstd::string::*;

verus! {

/// The text of an instant, written by `pattern` as a clock shows it that
/// is `offset_seconds` ahead of UTC. The instant is given in seconds since
/// the epoch, the pattern in `strftime` notation. `None` for an instant
/// beyond the calendar, an offset of a day or more, or a pattern that is
/// none.
pub uninterp spec fn time_text_of(seconds: i64, offset_seconds: i32, pattern: Seq<char>) -> Option<
    Seq<char>,
>;

/// The pattern of the instant in the name of a replay file: date and time of
/// day as in `2023-06-14T16:55:00Z`.
pub open spec fn stamp_pattern() -> Seq<char> {
    "%Y-%m-%dT%H:%M:%SZ"@
}

/// The pattern of the day in the name of a status replay: `2023-06-14`.
pub open spec fn day_pattern() -> Seq<char> {
    "%Y-%m-%d"@
}

/// The address of the latest track of an athlete.
pub open spec fn track_address(athlete_id: Seq<char>) -> Seq<char> {
    "https://rbxltdata.redbullxalps.com/race/athlete/"@ + athlete_id + "/track/latest.pbf"@
}

/// The address of the thinned-out track of an athlete over the whole race.
pub open spec fn reduced_track_address(athlete_id: Seq<char>) -> Seq<char> {
    "https://rbxltdata.redbullxalps.com/race/athlete/"@ + athlete_id + "/track/reduced.pbf"@
}

/// The address of the track of an athlete around the instant `stamp`.
pub open spec fn replay_track_address(athlete_id: Seq<char>, stamp: Seq<char>) -> Seq<char> {
    "https://rbxltdata.redbullxalps.com/race/athlete/"@ + athlete_id + "/track/latest-replay/"@
        + stamp + ".pbf"@
}

/// The address of the status of every minute of the day `day`.
pub open spec fn status_replay_address(day: Seq<char>) -> Seq<char> {
    "https://rbxltdata.redbullxalps.com/race/race-status-replay_"@ + day
}

/// Writes an instant as text with chrono's `DateTime::format`, through
/// `DelayedFormat::write_to`. `DateTime::from_timestamp` makes the instant
/// from the seconds, `FixedOffset::east_opt` the offset, and
/// `DateTime::with_timezone` puts the two together. The contract claims
/// that the text depends on the three arguments alone, and that there is
/// none exactly where one of the calls gives none. It is asked for the two
/// patterns of the feeds only, whose items are plain numbers.
#[verifier::external_body]
fn time_text(seconds: i64, offset_seconds: i32, pattern: &str) -> (text: Option<String>)
    requires
        pattern@ == stamp_pattern() || pattern@ == day_pattern(),
    ensures
        match text {
            Some(written) => time_text_of(seconds, offset_seconds, pattern@) == Some(written@),
            None => time_text_of(seconds, offset_seconds, pattern@) is None,
        },
{
    let offset = chrono::FixedOffset::east_opt(offset_seconds)?;
    let instant = chrono::DateTime::from_timestamp(seconds, 0)?.with_timezone(&offset);
    let mut written = String::new();
    match instant.format(pattern).write_to(&mut written) {
        Ok(()) => Some(written),
        Err(_) => None,
    }
}

/// Where the overview of the race is found.
pub fn overview_url() -> (url: String)
    ensures
        url@
            == "https://www.redbullxalps.com/fileadmin/live-tracking/2023/race/feeds/cdn-long/overview.json"@,
{
    String::from_str(
        "https://www.redbullxalps.com/fileadmin/live-tracking/2023/race/feeds/cdn-long/overview.json",
    )
}

/// Where the latest status of all athletes is found.
pub fn status_url() -> (url: String)
    ensures
        url@ == "https://rbxltdata.redbullxalps.com/race/race-status"@,
{
    String::from_str("https://rbxltdata.redbullxalps.com/race/race-status")
}

/// Where the status of every minute of one day is found. `day` is the date
/// in the form `2023-06-14`.
pub fn status_replay_url(day: &str) -> (url: String)
    ensures
        url@ == status_replay_address(day@),
{
    String::from_str("https://rbxltdata.redbullxalps.com/race/race-status-replay_").concat(day)
}

/// Where the status of every minute of one day is found: the day that a
/// clock `offset_seconds` ahead of UTC shows at the instant `seconds` since
/// the epoch. `None` for an instant beyond the calendar or an offset of a
/// day or more.
pub fn status_replay_url_on(seconds: i64, offset_seconds: i32) -> (url: Option<String>)
    ensures
        match url {
            Some(found) => time_text_of(seconds, offset_seconds, day_pattern()) is Some && found@
                == status_replay_address(
                time_text_of(seconds, offset_seconds, day_pattern())->Some_0,
            ),
            None => time_text_of(seconds, offset_seconds, day_pattern()) is None,
        },
{
    match time_text(seconds, offset_seconds, "%Y-%m-%d") {
        Some(day) => Some(status_replay_url(day.as_str())),
        None => None,
    }
}

/// Where the latest track of an athlete is found.
pub fn track_url(athlete_id: &str) -> (url: String)
    ensures
        url@ == track_address(athlete_id@),
{
    String::from_str("https://rbxltdata.redbullxalps.com/race/athlete/").concat(athlete_id).concat(
        "/track/latest.pbf",
    )
}

/// Where the thinned-out track of an athlete over the whole race is found.
pub fn reduced_track_url(athlete_id: &str) -> (url: String)
    ensures
        url@ == reduced_track_address(athlete_id@),
{
    String::from_str("https://rbxltdata.redbullxalps.com/race/athlete/").concat(athlete_id).concat(
        "/track/reduced.pbf",
    )
}

/// Where the track of an athlete around an instant is found, the instant
/// given as the text that the feed uses.
pub fn replay_track_url_at(athlete_id: &str, stamp: &str) -> (url: String)
    ensures
        url@ == replay_track_address(athlete_id@, stamp@),
{
    String::from_str("https://rbxltdata.redbullxalps.com/race/athlete/").concat(athlete_id).concat(
        "/track/latest-replay/",
    ).concat(stamp).concat(".pbf")
}

/// Where the track of an athlete around an instant is found, the instant
/// given in seconds since the epoch and named in UTC; `None` for an instant
/// beyond the calendar. The feed has a file for every fifth minute only.
pub fn replay_track_url(athlete_id: &str, seconds: i64) -> (url: Option<String>)
    ensures
        match url {
            Some(found) => time_text_of(seconds, 0, stamp_pattern()) is Some && found@
                == replay_track_address(
                athlete_id@,
                time_text_of(seconds, 0, stamp_pattern())->Some_0,
            ),
            None => time_text_of(seconds, 0, stamp_pattern()) is None,
        },
{
    match time_text(seconds, 0, "%Y-%m-%dT%H:%M:%SZ") {
        Some(stamp) => Some(replay_track_url_at(athlete_id, stamp.as_str())),
        None => None,
    }
}

} // verus!
