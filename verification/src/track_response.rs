//! The track of one athlete: the points that the tracker has sent.
use crate::measure::Measure;
use vstd::prelude::*;

verus! {

/// The points of one athlete's track, in no promised order.
#[derive(Debug, Clone, PartialEq)]
pub struct ApiTrackResponse {
    pub athlete_id: i32,
    pub track_points: Vec<ApiTrackPoint>,
}

/// One point of a track.
#[derive(Debug, Clone, PartialEq)]
pub struct ApiTrackPoint {
    /// When the point was measured, in seconds since the epoch.
    pub timestamp: Measure,
    pub lat: Measure,
    pub lng: Measure,
    /// Metres above sea level.
    pub altitude: Measure,
    /// Metres above the ground.
    pub altitude_agl: Measure,
    pub status: Option<String>,
    /// Kilometres per hour.
    pub speed: Measure,
    pub vertical_speed: Measure,
}

/// The index of the latest of the first `n` points: a point gives way to a
/// later point in the list unless its own timestamp is strictly greater.
pub open spec fn latest_of_first(points: Seq<ApiTrackPoint>, n: nat) -> int
    decreases n,
{
    if n <= 1 {
        0
    } else {
        let best = latest_of_first(points, (n - 1) as nat);
        if points[n - 1].timestamp.precedes(points[best].timestamp) {
            best
        } else {
            n - 1
        }
    }
}

/// The index of the latest point of a track that is not empty.
pub open spec fn latest_index(points: Seq<ApiTrackPoint>) -> int {
    latest_of_first(points, points.len())
}

/// Where every timestamp is known, the latest point is the last of those
/// with the greatest timestamp.
pub proof fn lemma_latest_is_greatest(points: Seq<ApiTrackPoint>, n: nat)
    requires
        0 < n <= points.len(),
        forall|i: int| 0 <= i < n ==> points[i].timestamp is Known,
    ensures
        0 <= latest_of_first(points, n) < n,
        forall|i: int|
            0 <= i < n ==> !points[latest_of_first(points, n)].timestamp.precedes(
                #[trigger] points[i].timestamp,
            ),
        forall|i: int|
            latest_of_first(points, n) < i < n ==> (#[trigger] points[i].timestamp).precedes(
                points[latest_of_first(points, n)].timestamp,
            ),
    decreases n,
{
    if n > 1 {
        lemma_latest_is_greatest(points, (n - 1) as nat);
    }
}

/// The latest point is one of the points, whatever is unknown.
pub proof fn lemma_latest_in_range(points: Seq<ApiTrackPoint>, n: nat)
    requires
        0 < n,
    ensures
        0 <= latest_of_first(points, n) < n,
    decreases n,
{
    if n > 1 {
        lemma_latest_in_range(points, (n - 1) as nat);
    }
}

impl ApiTrackResponse {
    /// The point with the greatest timestamp, the last of them where several
    /// have it; `None` for a track without points. A timestamp that is
    /// unknown counts as equal to every other.
    pub fn latest(&self) -> (point: Option<&ApiTrackPoint>)
        ensures
            self.track_points.len() == 0 ==> point is None,
            self.track_points.len() > 0 ==> point is Some && *point->Some_0
                == self.track_points[latest_index(self.track_points@)],
    {
        if self.track_points.len() == 0 {
            return None;
        }
        let mut best: usize = 0;
        let mut n: usize = 1;
        while n < self.track_points.len()
            invariant
                1 <= n <= self.track_points.len(),
                best < n,
                best == latest_of_first(self.track_points@, n as nat),
            decreases self.track_points.len() - n,
        {
            if !self.track_points[n].timestamp.is_less_than(&self.track_points[best].timestamp) {
                best = n;
            }
            n += 1;
        }
        Some(&self.track_points[best])
    }
}

} // verus!
