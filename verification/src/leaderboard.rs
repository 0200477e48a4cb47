//! Building the leaderboard from the roster and the latest status feed.
//!
//! Every athlete of the roster gets a row. The athlete's place is the
//! position of the athlete's id among all entries of the status feed, ordered
//! by their distance to the goal. The rows come out in the order of their
//! places, whatever the order of the roster.
use crate::lookup::{
    first_match, lemma_first_match_from, lemma_first_match_is, lemma_first_match_none,
};
use crate::measure::Measure;
use crate::overview::{Athlete, Overview};
use crate::race_status::RaceStatus;
use crate::ranking::{as_ints, lemma_ranking_holds, rank_order, ranking};
use crate::standings::{
    lemma_board_has_every_athlete, lemma_board_is_ordered, lemma_missing_iff_not_covered,
};
use crate::summary::{views, AthleteSummary, SummaryView};
use crate::text::{decimal, push_decimal};
use crate::track_response::{latest_index, ApiTrackResponse};
use vstd::prelude::*;
use vstd::string::*;

verus! {

/// The roster names an athlete of whom the status feed says nothing.
#[derive(Debug, Clone, PartialEq, Eq)]
pub struct ConsistencyError {
    /// The id of the athlete without a status.
    pub athlete_id: String,
}

impl ConsistencyError {
    /// What the error says, in words.
    pub open spec fn text(self) -> Seq<char> {
        "could not find status of athlete with id "@ + self.athlete_id@
    }

    /// The error in words, with the id of the athlete.
    pub fn message(&self) -> (text: String)
        ensures
            text@ == self.text(),
    {
        String::from_str("could not find status of athlete with id ").concat(
            self.athlete_id.as_str(),
        )
    }
}

/// The ids of the status entries, in the order of the feed.
pub open spec fn status_ids(statuses: Seq<RaceStatus>) -> Seq<Seq<char>> {
    Seq::new(statuses.len(), |i: int| statuses[i].athlete_id@)
}

/// The distances of the status entries, in the order of the feed.
pub open spec fn status_distances(statuses: Seq<RaceStatus>) -> Seq<Measure> {
    Seq::new(statuses.len(), |i: int| statuses[i].distance_to_goal)
}

/// The ids of the status entries, closest to the goal first.
pub open spec fn ranked_ids(statuses: Seq<RaceStatus>) -> Seq<Seq<char>> {
    Seq::new(
        statuses.len(),
        |i: int| statuses[ranking(status_distances(statuses))[i]].athlete_id@,
    )
}

/// The index of the first status entry of the athlete `id`.
pub open spec fn status_index(statuses: Seq<RaceStatus>, id: Seq<char>) -> Option<int> {
    first_match(status_ids(statuses), id)
}

/// The place of the athlete `id`: where the id first stands among the ids
/// ordered by distance.
pub open spec fn rank_of(statuses: Seq<RaceStatus>, id: Seq<char>) -> Option<int> {
    first_match(ranked_ids(statuses), id)
}

/// The whole seconds between a status and now; zero where the status claims
/// to be from the future.
pub open spec fn elapsed_seconds(now_ms: u64, timestamp_ms: usize) -> nat {
    if now_ms / 1000 >= timestamp_ms / 1000 {
        (now_ms / 1000 - timestamp_ms / 1000) as nat
    } else {
        0
    }
}

/// How long ago a status was measured, in whole minutes and the seconds
/// beyond them.
pub open spec fn last_update_text(now_ms: u64, timestamp_ms: usize) -> Seq<char> {
    decimal(elapsed_seconds(now_ms, timestamp_ms) / 60) + "min and "@ + decimal(
        elapsed_seconds(now_ms, timestamp_ms) % 60,
    ) + "s ago"@
}

/// First and last name with a blank between them.
pub open spec fn full_name_of(athlete: Athlete) -> Seq<char> {
    athlete.firstname@ + " "@ + athlete.lastname@
}

/// Everything that a leaderboard is built from.
pub ghost struct Feed {
    pub roster: Seq<Athlete>,
    pub statuses: Seq<RaceStatus>,
    /// The track of each athlete, in the order of the roster, where the
    /// tracks are to be used.
    pub tracks: Option<Seq<ApiTrackResponse>>,
    /// The time of the build, in milliseconds since the epoch.
    pub now_ms: u64,
}

impl Feed {
    /// The first athlete of the roster, at or behind `from`, without a
    /// status.
    pub open spec fn first_missing_from(self, from: int) -> Option<int>
        decreases self.roster.len() - from,
    {
        if from < 0 || from >= self.roster.len() {
            None
        } else if status_index(self.statuses, self.roster[from].athlete_id@) is None {
            Some(from)
        } else {
            self.first_missing_from(from + 1)
        }
    }

    /// The first athlete of the roster without a status.
    pub open spec fn first_missing(self) -> Option<int> {
        self.first_missing_from(0)
    }

    /// The status entry of the athlete at `j` of the roster.
    pub open spec fn status_at(self, j: int) -> RaceStatus {
        self.statuses[status_index(self.statuses, self.roster[j].athlete_id@)->Some_0]
    }

    /// The place of the athlete at `j` of the roster.
    pub open spec fn rank_at(self, j: int) -> int {
        rank_of(self.statuses, self.roster[j].athlete_id@)->Some_0
    }

    /// Altitude and speed of the athlete at `j` of the roster. Without tracks
    /// they are those of the status. With tracks they are those of the latest
    /// point of the athlete's track, in whole units, and unknown where there
    /// is no such point.
    pub open spec fn telemetry_at(self, j: int) -> (Option<usize>, Option<usize>) {
        match self.tracks {
            None => (Some(self.status_at(j).altitude), Some(self.status_at(j).speed)),
            Some(tracks) => if j < tracks.len() && tracks[j].track_points.len() > 0 {
                let point = tracks[j].track_points[latest_index(tracks[j].track_points@)];
                (point.altitude.whole_units(), point.speed.whole_units())
            } else {
                (None, None)
            },
        }
    }

    /// The row of the athlete at `j` of the roster.
    pub open spec fn row(self, j: int) -> SummaryView {
        SummaryView {
            full_name: full_name_of(self.roster[j]),
            team: self.roster[j].team@,
            altitude: self.telemetry_at(j).0,
            speed: self.telemetry_at(j).1,
            distance: self.status_at(j).distance_to_goal,
            rank: self.rank_at(j) as usize,
            status: self.status_at(j).status,
            last_update: last_update_text(self.now_ms, self.status_at(j).timestamp),
        }
    }

    /// The rows of those among the first `j` athletes of the roster whose
    /// place is `rank`, in the order of the roster.
    pub open spec fn rows_with_rank(self, rank: int, j: nat) -> Seq<SummaryView>
        decreases j,
    {
        if j == 0 {
            Seq::empty()
        } else if self.rank_at(j - 1) == rank {
            self.rows_with_rank(rank, (j - 1) as nat).push(self.row(j - 1))
        } else {
            self.rows_with_rank(rank, (j - 1) as nat)
        }
    }

    /// The rows of the athletes whose place is below `n`, best place first.
    pub open spec fn board_upto(self, n: nat) -> Seq<SummaryView>
        decreases n,
    {
        if n == 0 {
            Seq::empty()
        } else {
            self.board_upto((n - 1) as nat) + self.rows_with_rank(n - 1, self.roster.len())
        }
    }

    /// The leaderboard: the rows of all athletes of the roster, best place
    /// first, and athletes of the same place in the order of the roster.
    pub open spec fn board(self) -> Seq<SummaryView> {
        self.board_upto(self.statuses.len())
    }
}

/// The tracks that a build was given, as a sequence.
pub open spec fn tracks_given(tracks: Option<&Vec<ApiTrackResponse>>) -> Option<
    Seq<ApiTrackResponse>,
> {
    match tracks {
        Some(given) => Some(given@),
        None => None,
    }
}

/// What a build was given, in one value.
pub open spec fn feed_of(
    overview: &Overview,
    statuses: &Vec<RaceStatus>,
    tracks: Option<&Vec<ApiTrackResponse>>,
    now_ms: u64,
) -> Feed {
    Feed {
        roster: overview.athletes@,
        statuses: statuses@,
        tracks: tracks_given(tracks),
        now_ms: now_ms,
    }
}

/// An athlete with a status has a place, and the place is below the number
/// of status entries.
pub proof fn lemma_status_gives_rank(statuses: Seq<RaceStatus>, id: Seq<char>)
    requires
        status_index(statuses, id) is Some,
    ensures
        rank_of(statuses, id) is Some,
        0 <= rank_of(statuses, id)->Some_0 < statuses.len(),
        ranked_ids(statuses)[rank_of(statuses, id)->Some_0] == id,
{
    let ids = status_ids(statuses);
    let keys = status_distances(statuses);
    lemma_first_match_from(ids, id, 0);
    let at = status_index(statuses, id)->Some_0;
    let position = lemma_ranking_holds(keys, keys.len(), at);
    assert(ranked_ids(statuses)[position] == id);
    lemma_first_match_from(ranked_ids(statuses), id, 0);
}

/// The time since a status, in words.
pub fn last_update(now_ms: u64, timestamp_ms: usize) -> (text: String)
    ensures
        text@ == last_update_text(now_ms, timestamp_ms),
{
    let now_s: u64 = now_ms / 1000;
    let then_s: u64 = (timestamp_ms / 1000) as u64;
    let elapsed: u64 = if now_s >= then_s {
        now_s - then_s
    } else {
        0
    };
    let mut text = String::new();
    push_decimal(&mut text, elapsed / 60);
    text.append("min and ");
    push_decimal(&mut text, elapsed % 60);
    text.append("s ago");
    text
}

/// The first status entry of the athlete `id`.
fn find_status(statuses: &Vec<RaceStatus>, id: &String) -> (found: Option<usize>)
    ensures
        match found {
            Some(at) => at < statuses.len() && status_index(statuses@, id@) == Some(at as int),
            None => status_index(statuses@, id@) is None,
        },
{
    let ghost ids = status_ids(statuses@);
    let mut i: usize = 0;
    while i < statuses.len()
        invariant
            i <= statuses.len(),
            ids == status_ids(statuses@),
            forall|k: int| 0 <= k < i ==> ids[k] != id@,
        decreases statuses.len() - i,
    {
        if statuses[i].athlete_id == *id {
            proof {
                lemma_first_match_is(ids, id@, 0, i as int);
            }
            return Some(i);
        }
        i += 1;
    }
    proof {
        lemma_first_match_none(ids, id@, 0);
    }
    None
}

/// The place of the athlete `id`, who has a status, in the ranking `order`.
fn find_rank(statuses: &Vec<RaceStatus>, order: &Vec<usize>, id: &String) -> (rank: usize)
    requires
        as_ints(order@) == ranking(status_distances(statuses@)),
        order.len() == statuses.len(),
        forall|i: int| 0 <= i < order.len() ==> #[trigger] order[i] < statuses.len(),
        status_index(statuses@, id@) is Some,
    ensures
        rank < statuses.len(),
        rank_of(statuses@, id@) == Some(rank as int),
{
    let ghost ids = ranked_ids(statuses@);
    proof {
        lemma_status_gives_rank(statuses@, id@);
    }
    let ghost goal = rank_of(statuses@, id@)->Some_0;
    let mut p: usize = 0;
    while !(statuses[order[p]].athlete_id == *id)
        invariant
            0 <= p <= goal < statuses.len(),
            order.len() == statuses.len(),
            forall|i: int| 0 <= i < order.len() ==> #[trigger] order[i] < statuses.len(),
            as_ints(order@) == ranking(status_distances(statuses@)),
            ids == ranked_ids(statuses@),
            ids[goal] == id@,
            forall|k: int| 0 <= k < p ==> ids[k] != id@,
        decreases goal - p,
    {
        p += 1;
    }
    proof {
        lemma_first_match_is(ids, id@, 0, p as int);
    }
    p
}

/// Altitude and speed for a row: those of the status where no tracks are
/// given, else those of the latest point of the track at `j`.
fn telemetry(status: &RaceStatus, tracks: Option<&Vec<ApiTrackResponse>>, j: usize) -> (pair: (
    Option<usize>,
    Option<usize>,
))
    ensures
        pair == match tracks_given(tracks) {
            None => (Some(status.altitude), Some(status.speed)),
            Some(given) => if j < given.len() && given[j as int].track_points.len() > 0 {
                let point = given[j as int].track_points[latest_index(
                    given[j as int].track_points@,
                )];
                (point.altitude.whole_units(), point.speed.whole_units())
            } else {
                (None, None)
            },
        },
{
    match tracks {
        None => (Some(status.altitude), Some(status.speed)),
        Some(given) => {
            if j < given.len() {
                match given[j].latest() {
                    Some(point) => (point.altitude.whole(), point.speed.whole()),
                    None => (None, None),
                }
            } else {
                (None, None)
            }
        },
    }
}

/// The row of `athlete`, whose status is `status` and whose place is `rank`.
fn make_row(
    athlete: &Athlete,
    status: &RaceStatus,
    rank: usize,
    telemetry: (Option<usize>, Option<usize>),
    now_ms: u64,
) -> (row: AthleteSummary)
    ensures
        row@ == (SummaryView {
            full_name: full_name_of(*athlete),
            team: athlete.team@,
            altitude: telemetry.0,
            speed: telemetry.1,
            distance: status.distance_to_goal,
            rank: rank,
            status: status.status,
            last_update: last_update_text(now_ms, status.timestamp),
        }),
{
    AthleteSummary {
        full_name: athlete.firstname.clone().concat(" ").concat(athlete.lastname.as_str()),
        team: athlete.team.clone(),
        altitude: telemetry.0,
        speed: telemetry.1,
        distance: status.distance_to_goal,
        rank: rank,
        status: status.status,
        last_update: last_update(now_ms, status.timestamp),
    }
}

impl AthleteSummary {
    /// Builds the leaderboard of the athletes of `overview` from `statuses`,
    /// as of the time `now_ms` (milliseconds since the epoch).
    ///
    /// Where `tracks` is given, it holds the track of each athlete in the
    /// order of the roster, and altitude and speed of a row are those of the
    /// latest point of the athlete's track.
    ///
    /// Fails, with the id of the first such athlete, where an athlete of the
    /// roster has no status: there is no board with some of the rows.
    /// Otherwise the board has a row for every athlete of the roster, and the
    /// rows stand in the order of their places.
    pub fn build(
        overview: &Overview,
        statuses: &Vec<RaceStatus>,
        tracks: Option<&Vec<ApiTrackResponse>>,
        now_ms: u64,
    ) -> (result: Result<Vec<AthleteSummary>, ConsistencyError>)
        ensures
            match result {
                Ok(rows) => feed_of(overview, statuses, tracks, now_ms).first_missing() is None
                    && views(rows@) == feed_of(overview, statuses, tracks, now_ms).board()
                    && rows.len() == overview.athletes.len() && forall|a: int, b: int|
                    0 <= a < b < rows.len() ==> (#[trigger] rows[a]).rank <= (
                    #[trigger] rows[b]).rank,
                Err(error) => feed_of(overview, statuses, tracks, now_ms).first_missing() is Some
                    && error.athlete_id@ == overview.athletes[feed_of(
                    overview,
                    statuses,
                    tracks,
                    now_ms,
                ).first_missing()->Some_0].athlete_id@,
            },
    {
        let ghost feed = feed_of(overview, statuses, tracks, now_ms);
        let roster = &overview.athletes;
        let mut distances: Vec<Measure> = Vec::new();
        let mut i: usize = 0;
        while i < statuses.len()
            invariant
                i <= statuses.len(),
                distances.len() == i,
                forall|k: int| 0 <= k < i ==> distances[k] == statuses[k].distance_to_goal,
            decreases statuses.len() - i,
        {
            distances.push(statuses[i].distance_to_goal);
            i += 1;
        }
        proof {
            assert(distances@ =~= status_distances(statuses@));
        }
        let order = rank_order(&distances);
        let mut found: Vec<usize> = Vec::new();
        let mut ranks: Vec<usize> = Vec::new();
        let mut j: usize = 0;
        while j < roster.len()
            invariant
                j <= roster.len(),
                roster == &overview.athletes,
                feed == feed_of(overview, statuses, tracks, now_ms),
                found.len() == j,
                ranks.len() == j,
                as_ints(order@) == ranking(status_distances(statuses@)),
                order.len() == statuses.len(),
                forall|i: int| 0 <= i < order.len() ==> #[trigger] order[i] < statuses.len(),
                feed.first_missing() == feed.first_missing_from(j as int),
                forall|k: int|
                    0 <= k < j ==> #[trigger] found[k] < statuses.len() && status_index(
                        statuses@,
                        roster[k].athlete_id@,
                    ) == Some(found[k] as int),
                forall|k: int|
                    0 <= k < j ==> #[trigger] ranks[k] < statuses.len() && rank_of(
                        statuses@,
                        roster[k].athlete_id@,
                    ) == Some(ranks[k] as int),
            decreases roster.len() - j,
        {
            match find_status(statuses, &roster[j].athlete_id) {
                None => {
                    return Err(ConsistencyError { athlete_id: roster[j].athlete_id.clone() });
                },
                Some(at) => {
                    let rank = find_rank(statuses, &order, &roster[j].athlete_id);
                    found.push(at);
                    ranks.push(rank);
                },
            }
            j += 1;
        }
        let mut rows: Vec<AthleteSummary> = Vec::new();
        let mut r: usize = 0;
        while r < statuses.len()
            invariant
                r <= statuses.len(),
                roster == &overview.athletes,
                feed == feed_of(overview, statuses, tracks, now_ms),
                found.len() == roster.len(),
                ranks.len() == roster.len(),
                forall|k: int|
                    0 <= k < roster.len() ==> #[trigger] found[k] < statuses.len() && status_index(
                        statuses@,
                        roster[k].athlete_id@,
                    ) == Some(found[k] as int),
                forall|k: int|
                    0 <= k < roster.len() ==> #[trigger] ranks[k] < statuses.len() && rank_of(
                        statuses@,
                        roster[k].athlete_id@,
                    ) == Some(ranks[k] as int),
                views(rows@) == feed.board_upto(r as nat),
            decreases statuses.len() - r,
        {
            let mut j: usize = 0;
            while j < roster.len()
                invariant
                    j <= roster.len(),
                    r < statuses.len(),
                    roster == &overview.athletes,
                    feed == feed_of(overview, statuses, tracks, now_ms),
                    found.len() == roster.len(),
                    ranks.len() == roster.len(),
                    forall|k: int|
                        0 <= k < roster.len() ==> #[trigger] found[k] < statuses.len()
                            && status_index(statuses@, roster[k].athlete_id@) == Some(
                            found[k] as int,
                        ),
                    forall|k: int|
                        0 <= k < roster.len() ==> #[trigger] ranks[k] < statuses.len() && rank_of(
                            statuses@,
                            roster[k].athlete_id@,
                        ) == Some(ranks[k] as int),
                    views(rows@) == feed.board_upto(r as nat) + feed.rows_with_rank(
                        r as int,
                        j as nat,
                    ),
                decreases roster.len() - j,
            {
                if ranks[j] == r {
                    let status = &statuses[found[j]];
                    let row = make_row(&roster[j], status, r, telemetry(status, tracks, j), now_ms);
                    let ghost before = views(rows@);
                    rows.push(row);
                    proof {
                        assert(views(rows@) =~= before.push(row@));
                    }
                }
                j += 1;
            }
            r += 1;
        }
        proof {
            lemma_missing_iff_not_covered(feed);
            lemma_board_has_every_athlete(feed);
            lemma_board_is_ordered(feed);
            assert forall|a: int, b: int| 0 <= a < b < rows.len() implies (#[trigger] rows[a]).rank
                <= (#[trigger] rows[b]).rank by {
                assert(views(rows@)[a].rank == rows[a].rank);
                assert(views(rows@)[b].rank == rows[b].rank);
            }
        }
        Ok(rows)
    }
}

} // verus!
