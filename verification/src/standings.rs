//! What holds of every leaderboard that is built.
use crate::leaderboard::{lemma_status_gives_rank, rank_of, ranked_ids, status_index, Feed};
use crate::overview::distinct_ids;
use crate::summary::SummaryView;
use vstd::prelude::*;

verus! {

/// Whether every athlete of the roster has a status.
pub open spec fn covered(feed: Feed) -> bool {
    forall|j: int|
        0 <= j < feed.roster.len() ==> status_index(
            feed.statuses,
            (#[trigger] feed.roster[j]).athlete_id@,
        ) is Some
}

/// Whether the athletes of the roster hold the first places among all status
/// entries: no entry of an athlete outside the roster, and no second entry
/// of one inside it, stands in front of any of them.
pub open spec fn roster_ranks_first(feed: Feed) -> bool {
    forall|j: int|
        0 <= j < feed.roster.len() ==> rank_of(
            feed.statuses,
            (#[trigger] feed.roster[j]).athlete_id@,
        )->Some_0 < feed.roster.len()
}

/// How many of the first `j` athletes of the roster have a place below `n`.
pub open spec fn count_ranked(feed: Feed, n: int, j: nat) -> nat
    decreases j,
{
    if j == 0 {
        0
    } else if 0 <= feed.rank_at(j - 1) < n {
        count_ranked(feed, n, (j - 1) as nat) + 1
    } else {
        count_ranked(feed, n, (j - 1) as nat)
    }
}

/// What the search for an athlete without a status finds is the first such
/// athlete; it finds none only where there is none.
pub proof fn lemma_first_missing(feed: Feed, from: int)
    requires
        0 <= from,
    ensures
        match feed.first_missing_from(from) {
            Some(m) => from <= m < feed.roster.len() && status_index(
                feed.statuses,
                feed.roster[m].athlete_id@,
            ) is None && forall|j: int|
                from <= j < m ==> status_index(
                    feed.statuses,
                    (#[trigger] feed.roster[j]).athlete_id@,
                ) is Some,
            None => forall|j: int|
                from <= j < feed.roster.len() ==> status_index(
                    feed.statuses,
                    (#[trigger] feed.roster[j]).athlete_id@,
                ) is Some,
        },
    decreases feed.roster.len() - from,
{
    if from < feed.roster.len() && status_index(feed.statuses, feed.roster[from].athlete_id@)
        is Some {
        lemma_first_missing(feed, from + 1);
    }
}

/// A build fails exactly where an athlete of the roster has no status.
pub proof fn lemma_missing_iff_not_covered(feed: Feed)
    ensures
        feed.first_missing() is None <==> covered(feed),
{
    lemma_first_missing(feed, 0);
}

/// Every athlete with a status has a place among the status entries.
pub proof fn lemma_covered_ranks(feed: Feed)
    requires
        covered(feed),
    ensures
        forall|j: int|
            0 <= j < feed.roster.len() ==> 0 <= #[trigger] feed.rank_at(j) < feed.statuses.len(),
{
    assert forall|j: int| 0 <= j < feed.roster.len() implies 0 <= #[trigger] feed.rank_at(j)
        < feed.statuses.len() by {
        lemma_status_gives_rank(feed.statuses, feed.roster[j].athlete_id@);
    }
}

proof fn lemma_count_step(feed: Feed, n: int, j: nat)
    requires
        n >= 1,
    ensures
        count_ranked(feed, n, j) == count_ranked(feed, n - 1, j) + feed.rows_with_rank(
            n - 1,
            j,
        ).len(),
    decreases j,
{
    if j > 0 {
        lemma_count_step(feed, n, (j - 1) as nat);
    }
}

proof fn lemma_count_none(feed: Feed, j: nat)
    ensures
        count_ranked(feed, 0, j) == 0,
    decreases j,
{
    if j > 0 {
        lemma_count_none(feed, (j - 1) as nat);
    }
}

proof fn lemma_count_all(feed: Feed, n: int, j: nat)
    requires
        j <= feed.roster.len(),
        forall|k: int| 0 <= k < j ==> 0 <= #[trigger] feed.rank_at(k) < n,
    ensures
        count_ranked(feed, n, j) == j,
    decreases j,
{
    if j > 0 {
        lemma_count_all(feed, n, (j - 1) as nat);
    }
}

proof fn lemma_board_counts(feed: Feed, n: nat)
    ensures
        feed.board_upto(n).len() == count_ranked(feed, n as int, feed.roster.len()),
    decreases n,
{
    if n == 0 {
        lemma_count_none(feed, feed.roster.len());
    } else {
        lemma_board_counts(feed, (n - 1) as nat);
        lemma_count_step(feed, n as int, feed.roster.len());
    }
}

/// The board has one row for each athlete of the roster.
pub proof fn lemma_board_has_every_athlete(feed: Feed)
    requires
        covered(feed),
    ensures
        feed.board().len() == feed.roster.len(),
{
    lemma_covered_ranks(feed);
    lemma_board_counts(feed, feed.statuses.len());
    lemma_count_all(feed, feed.statuses.len() as int, feed.roster.len());
}

proof fn lemma_rows_with_rank(feed: Feed, rank: int, j: nat)
    ensures
        forall|k: int|
            0 <= k < feed.rows_with_rank(rank, j).len() ==> (#[trigger] feed.rows_with_rank(
                rank,
                j,
            )[k]).rank == rank as usize,
    decreases j,
{
    if j > 0 {
        lemma_rows_with_rank(feed, rank, (j - 1) as nat);
    }
}

proof fn lemma_rows_with_rank_none(feed: Feed, rank: int, j: nat)
    requires
        forall|k: int| 0 <= k < j ==> #[trigger] feed.rank_at(k) != rank,
    ensures
        feed.rows_with_rank(rank, j) == Seq::<SummaryView>::empty(),
    decreases j,
{
    if j > 0 {
        lemma_rows_with_rank_none(feed, rank, (j - 1) as nat);
    }
}

proof fn lemma_rows_with_rank_single(feed: Feed, rank: int, j: nat)
    requires
        covered(feed),
        distinct_ids(feed.roster),
        j <= feed.roster.len(),
    ensures
        feed.rows_with_rank(rank, j).len() <= 1,
        feed.rows_with_rank(rank, j).len() == 1 ==> exists|i: int|
            0 <= i < j && #[trigger] feed.rank_at(i) == rank,
    decreases j,
{
    if j > 0 {
        lemma_rows_with_rank_single(feed, rank, (j - 1) as nat);
        if feed.rows_with_rank(rank, (j - 1) as nat).len() == 1 {
            // An earlier athlete has this place already. The place is where
            // an id stands among the ranked ids, so a second athlete with the
            // place would have the same id.
            let i = choose|i: int| 0 <= i < j - 1 && #[trigger] feed.rank_at(i) == rank;
            if feed.rank_at(j - 1) == rank {
                lemma_status_gives_rank(feed.statuses, feed.roster[i].athlete_id@);
                lemma_status_gives_rank(feed.statuses, feed.roster[j - 1].athlete_id@);
            }
        }
    }
}

proof fn lemma_board_upto_ordered(feed: Feed, n: nat)
    requires
        n <= usize::MAX,
    ensures
        forall|k: int|
            0 <= k < feed.board_upto(n).len() ==> (#[trigger] feed.board_upto(n)[k]).rank < n,
        forall|a: int, b: int|
            0 <= a < b < feed.board_upto(n).len() ==> (#[trigger] feed.board_upto(n)[a]).rank <= (
            #[trigger] feed.board_upto(n)[b]).rank,
    decreases n,
{
    if n > 0 {
        lemma_board_upto_ordered(feed, (n - 1) as nat);
        lemma_rows_with_rank(feed, n - 1, feed.roster.len());
    }
}

proof fn lemma_board_upto_ascends(feed: Feed, n: nat)
    requires
        n <= usize::MAX,
        covered(feed),
        distinct_ids(feed.roster),
    ensures
        forall|a: int, b: int|
            0 <= a < b < feed.board_upto(n).len() ==> (#[trigger] feed.board_upto(n)[a]).rank < (
            #[trigger] feed.board_upto(n)[b]).rank,
    decreases n,
{
    if n > 0 {
        lemma_board_upto_ascends(feed, (n - 1) as nat);
        lemma_board_upto_ordered(feed, (n - 1) as nat);
        lemma_rows_with_rank(feed, n - 1, feed.roster.len());
        lemma_rows_with_rank_single(feed, n - 1, feed.roster.len());
    }
}

proof fn lemma_board_upto_stops(feed: Feed, n: nat, m: nat)
    requires
        n <= m,
        forall|j: int| 0 <= j < feed.roster.len() ==> #[trigger] feed.rank_at(j) < n,
    ensures
        feed.board_upto(m) == feed.board_upto(n),
    decreases m,
{
    if m > n {
        lemma_board_upto_stops(feed, n, (m - 1) as nat);
        lemma_rows_with_rank_none(feed, m - 1, feed.roster.len());
    }
}

proof fn lemma_ascending_from_below(rows: Seq<SummaryView>, k: int)
    requires
        0 <= k < rows.len(),
        forall|a: int, b: int|
            0 <= a < b < rows.len() ==> (#[trigger] rows[a]).rank < (#[trigger] rows[b]).rank,
    ensures
        rows[k].rank >= k,
    decreases k,
{
    if k > 0 {
        lemma_ascending_from_below(rows, k - 1);
    }
}

proof fn lemma_ascending_from_above(rows: Seq<SummaryView>, k: int)
    requires
        0 <= k < rows.len(),
        forall|a: int, b: int|
            0 <= a < b < rows.len() ==> (#[trigger] rows[a]).rank < (#[trigger] rows[b]).rank,
        forall|a: int| 0 <= a < rows.len() ==> (#[trigger] rows[a]).rank < rows.len(),
    ensures
        rows[k].rank <= k,
    decreases rows.len() - k,
{
    if k + 1 < rows.len() {
        lemma_ascending_from_above(rows, k + 1);
    }
}

proof fn lemma_rows_with_rank_hold(feed: Feed, rank: int, m: nat, j: int) -> (k: int)
    requires
        0 <= j < m,
        feed.rank_at(j) == rank,
    ensures
        0 <= k < feed.rows_with_rank(rank, m).len(),
        feed.rows_with_rank(rank, m)[k] == feed.row(j),
    decreases m,
{
    if j == m - 1 {
        feed.rows_with_rank(rank, (m - 1) as nat).len() as int
    } else {
        lemma_rows_with_rank_hold(feed, rank, (m - 1) as nat, j)
    }
}

proof fn lemma_rows_with_rank_come_from(feed: Feed, rank: int, m: nat, k: int) -> (j: int)
    requires
        0 <= k < feed.rows_with_rank(rank, m).len(),
    ensures
        0 <= j < m,
        feed.rank_at(j) == rank,
        feed.rows_with_rank(rank, m)[k] == feed.row(j),
    decreases m,
{
    if feed.rank_at(m - 1) == rank && k == feed.rows_with_rank(rank, (m - 1) as nat).len() {
        m - 1
    } else {
        lemma_rows_with_rank_come_from(feed, rank, (m - 1) as nat, k)
    }
}

proof fn lemma_board_upto_holds(feed: Feed, n: nat, j: int) -> (k: int)
    requires
        0 <= j < feed.roster.len(),
        0 <= feed.rank_at(j) < n,
    ensures
        0 <= k < feed.board_upto(n).len(),
        feed.board_upto(n)[k] == feed.row(j),
    decreases n,
{
    if feed.rank_at(j) == n - 1 {
        let at = lemma_rows_with_rank_hold(feed, n - 1, feed.roster.len(), j);
        feed.board_upto((n - 1) as nat).len() + at
    } else {
        lemma_board_upto_holds(feed, (n - 1) as nat, j)
    }
}

proof fn lemma_board_upto_comes_from(feed: Feed, n: nat, k: int) -> (j: int)
    requires
        0 <= k < feed.board_upto(n).len(),
    ensures
        0 <= j < feed.roster.len(),
        0 <= feed.rank_at(j) < n,
        feed.board_upto(n)[k] == feed.row(j),
    decreases n,
{
    let front = feed.board_upto((n - 1) as nat);
    if k < front.len() {
        lemma_board_upto_comes_from(feed, (n - 1) as nat, k)
    } else {
        lemma_rows_with_rank_come_from(feed, n - 1, feed.roster.len(), k - front.len())
    }
}

/// Every athlete of the roster has a row on the board: the result is where
/// the row of the athlete at `j` stands.
pub proof fn lemma_board_holds_athlete(feed: Feed, j: int) -> (k: int)
    requires
        covered(feed),
        0 <= j < feed.roster.len(),
    ensures
        0 <= k < feed.board().len(),
        feed.board()[k] == feed.row(j),
{
    lemma_covered_ranks(feed);
    lemma_board_upto_holds(feed, feed.statuses.len(), j)
}

/// Every row of the board is the row of an athlete of the roster: the result
/// is where that athlete stands in the roster.
pub proof fn lemma_board_row_is_of_roster(feed: Feed, k: int) -> (j: int)
    requires
        0 <= k < feed.board().len(),
    ensures
        0 <= j < feed.roster.len(),
        feed.board()[k] == feed.row(j),
{
    lemma_board_upto_comes_from(feed, feed.statuses.len(), k)
}

/// The rows of the board stand in the order of their places.
pub proof fn lemma_board_is_ordered(feed: Feed)
    requires
        feed.statuses.len() <= usize::MAX,
    ensures
        forall|k: int|
            0 <= k < feed.board().len() ==> (#[trigger] feed.board()[k]).rank
                < feed.statuses.len(),
        forall|a: int, b: int|
            0 <= a < b < feed.board().len() ==> (#[trigger] feed.board()[a]).rank <= (
            #[trigger] feed.board()[b]).rank,
{
    lemma_board_upto_ordered(feed, feed.statuses.len());
}

/// Where the ids of the roster differ from one another, no two rows of the
/// board have the same place.
pub proof fn lemma_board_places_differ(feed: Feed)
    requires
        feed.statuses.len() <= usize::MAX,
        covered(feed),
        distinct_ids(feed.roster),
    ensures
        forall|a: int, b: int|
            0 <= a < b < feed.board().len() ==> (#[trigger] feed.board()[a]).rank < (
            #[trigger] feed.board()[b]).rank,
{
    lemma_board_upto_ascends(feed, feed.statuses.len());
}

/// Where every athlete of the roster has a status, the ids of the roster
/// differ from one another, and the athletes of the roster hold the first
/// places, the board has a row for each athlete and the places are
/// 0, 1, 2 and so on without a gap: the row at `k` has place `k`.
pub proof fn lemma_board_places_are_positions(feed: Feed)
    requires
        feed.statuses.len() <= usize::MAX,
        covered(feed),
        distinct_ids(feed.roster),
        roster_ranks_first(feed),
    ensures
        feed.board().len() == feed.roster.len(),
        forall|k: int| 0 <= k < feed.roster.len() ==> (#[trigger] feed.board()[k]).rank == k,
{
    let board = feed.board();
    let size = feed.roster.len();
    lemma_board_has_every_athlete(feed);
    lemma_board_places_differ(feed);
    if size <= feed.statuses.len() {
        lemma_board_upto_stops(feed, size, feed.statuses.len());
        lemma_board_upto_ordered(feed, size);
    } else {
        lemma_board_upto_ordered(feed, feed.statuses.len());
    }
    assert forall|k: int| 0 <= k < size implies (#[trigger] board[k]).rank == k by {
        lemma_ascending_from_below(board, k);
        lemma_ascending_from_above(board, k);
    }
}

/// A status feed with exactly as many entries as the roster has athletes,
/// each of whom has a status, leaves the first places to the roster.
pub proof fn lemma_same_size_ranks_first(feed: Feed)
    requires
        covered(feed),
        feed.statuses.len() == feed.roster.len(),
    ensures
        roster_ranks_first(feed),
{
    lemma_covered_ranks(feed);
    assert forall|j: int| 0 <= j < feed.roster.len() implies rank_of(
        feed.statuses,
        (#[trigger] feed.roster[j]).athlete_id@,
    )->Some_0 < feed.roster.len() by {
        assert(feed.rank_at(j) < feed.statuses.len());
    }
}

} // verus!
