//! Marking what changed between two boards.
//!
//! A row of the current board is compared with the row of the same team on
//! the previous board, wherever that row stands. A team that was not on the
//! previous board counts as risen. Where the place is unchanged, the
//! distance to the leader decides: the leader of a board is its row with the
//! smallest known distance to the goal, and each board is measured against
//! its own leader.
use crate::lookup::{
    first_match, lemma_first_match_from, lemma_first_match_is, lemma_first_match_none,
};
use crate::measure::Measure;
use crate::summary::{views, AthleteSummary, Change, SummaryView};
use vstd::prelude::*;

verus! {

/// The smallest known distance among the first `n` rows; unknown where none
/// of them is known.
pub open spec fn leader_of_first(rows: Seq<SummaryView>, n: nat) -> Measure
    decreases n,
{
    if n == 0 {
        Measure::Unknown
    } else {
        let rest = leader_of_first(rows, (n - 1) as nat);
        if rest is Unknown || rows[n - 1].distance.precedes(rest) {
            rows[n - 1].distance
        } else {
            rest
        }
    }
}

/// The distance of the leader of a board to the goal.
pub open spec fn leader_distance(rows: Seq<SummaryView>) -> Measure {
    leader_of_first(rows, rows.len())
}

/// How far behind the leader a row is; `None` where one of the two distances
/// is unknown.
pub open spec fn gap(distance: Measure, leader: Measure) -> Option<int> {
    match (distance, leader) {
        (Measure::Known(d), Measure::Known(l)) => Some(d - l),
        _ => None,
    }
}

/// How much a gap has grown; `None` where one of the two gaps is unknown.
pub open spec fn drift(current: Option<int>, previous: Option<int>) -> Option<int> {
    match (current, previous) {
        (Some(c), Some(p)) => Some(c - p),
        _ => None,
    }
}

/// The teams of the rows of a board.
pub open spec fn teams(rows: Seq<SummaryView>) -> Seq<Seq<char>> {
    Seq::new(rows.len(), |i: int| rows[i].team)
}

/// The change of row `i` of `current` against `previous`.
pub open spec fn change_at(current: Seq<SummaryView>, previous: Seq<SummaryView>, i: int) -> Change {
    match first_match(teams(previous), current[i].team) {
        None => Change::RankUp,
        Some(p) => Change::classify(
            current[i].rank,
            previous[p].rank,
            drift(
                gap(current[i].distance, leader_distance(current)),
                gap(previous[p].distance, leader_distance(previous)),
            ),
        ),
    }
}

/// The change of every row of `current` against `previous`.
pub open spec fn changes_of(current: Seq<SummaryView>, previous: Seq<SummaryView>) -> Seq<Change> {
    Seq::new(current.len(), |i: int| change_at(current, previous, i))
}

/// The board `current` with every row marked by its change against
/// `previous`.
pub open spec fn annotated(current: Seq<SummaryView>, previous: Seq<SummaryView>) -> Seq<
    SummaryView,
> {
    Seq::new(current.len(), |i: int| current[i].marked(change_at(current, previous, i)))
}

/// Whether two boards agree in what a comparison reads: the team, the place
/// and the distance of every row.
pub open spec fn same_standing(a: Seq<SummaryView>, b: Seq<SummaryView>) -> bool {
    a.len() == b.len() && forall|i: int|
        0 <= i < a.len() ==> (#[trigger] a[i]).team == b[i].team && a[i].rank == b[i].rank
            && a[i].distance == b[i].distance
}

/// The leader's distance is the distance of a row, and no known distance is
/// smaller; it is unknown only where every distance is.
pub proof fn lemma_leader_is_closest(rows: Seq<SummaryView>, n: nat)
    requires
        n <= rows.len(),
    ensures
        leader_of_first(rows, n) is Known ==> exists|i: int|
            0 <= i < n && (#[trigger] rows[i]).distance == leader_of_first(rows, n),
        forall|i: int|
            0 <= i < n ==> !(#[trigger] rows[i]).distance.precedes(leader_of_first(rows, n)),
        leader_of_first(rows, n) is Unknown ==> forall|i: int|
            0 <= i < n ==> (#[trigger] rows[i]).distance is Unknown,
    decreases n,
{
    if n > 0 {
        lemma_leader_is_closest(rows, (n - 1) as nat);
        let rest = leader_of_first(rows, (n - 1) as nat);
        if rest is Known && !rows[n - 1].distance.precedes(rest) {
            // The leader stays who it was: one of the rows before.
            let i = choose|i: int| 0 <= i < n - 1 && (#[trigger] rows[i]).distance == rest;
            assert(rows[i].distance == leader_of_first(rows, n));
        }
    }
}

proof fn lemma_leader_reads_distances(a: Seq<SummaryView>, b: Seq<SummaryView>, n: nat)
    requires
        same_standing(a, b),
        n <= a.len(),
    ensures
        leader_of_first(a, n) == leader_of_first(b, n),
    decreases n,
{
    if n > 0 {
        lemma_leader_reads_distances(a, b, (n - 1) as nat);
    }
}

/// The marks do not depend on the names: boards that agree in team, place
/// and distance of every row give the same changes. So a board that has been
/// marked compares like the board before it was marked.
pub proof fn lemma_changes_read_standing(
    current: Seq<SummaryView>,
    previous: Seq<SummaryView>,
    other_current: Seq<SummaryView>,
    other_previous: Seq<SummaryView>,
)
    requires
        same_standing(current, other_current),
        same_standing(previous, other_previous),
    ensures
        changes_of(current, previous) == changes_of(other_current, other_previous),
{
    lemma_leader_reads_distances(current, other_current, current.len());
    lemma_leader_reads_distances(previous, other_previous, previous.len());
    assert(teams(previous) =~= teams(other_previous));
    assert forall|i: int| 0 <= i < current.len() implies change_at(current, previous, i)
        == change_at(other_current, other_previous, i) by {
        lemma_first_match_from(teams(previous), current[i].team, 0);
    }
}

/// Marking a board changes names only: the marked board agrees with the
/// board itself in team, place and distance of every row.
pub proof fn lemma_annotated_keeps_standing(current: Seq<SummaryView>, previous: Seq<SummaryView>)
    ensures
        same_standing(annotated(current, previous), current),
{
}

/// Whether no two rows of a board have the same team.
pub open spec fn distinct_teams(rows: Seq<SummaryView>) -> bool {
    forall|i: int, j: int|
        0 <= i < j < rows.len() ==> (#[trigger] rows[i]).team != (#[trigger] rows[j]).team
}

/// A board on which every team stands once gets no marks against a board
/// that agrees with it in team, place and distance of every row: where
/// nothing moved, nothing is marked.
pub proof fn lemma_unchanged_board_gets_no_marks(
    current: Seq<SummaryView>,
    previous: Seq<SummaryView>,
)
    requires
        same_standing(current, previous),
        distinct_teams(current),
    ensures
        forall|i: int|
            0 <= i < current.len() ==> #[trigger] change_at(current, previous, i)
                == Change::NoChange,
        annotated(current, previous) == current,
{
    lemma_leader_reads_distances(current, previous, current.len());
    assert forall|i: int| 0 <= i < current.len() implies #[trigger] change_at(current, previous, i)
        == Change::NoChange by {
        assert(teams(previous)[i] == current[i].team);
        assert forall|k: int| 0 <= k < i implies teams(previous)[k] != current[i].team by {
            assert(previous[k].team == current[k].team);
        }
        lemma_first_match_is(teams(previous), current[i].team, 0, i);
    }
    assert forall|i: int| 0 <= i < current.len() implies annotated(current, previous)[i]
        == current[i] by {
        assert(current[i].full_name + Change::NoChange.glyph() =~= current[i].full_name);
    }
    assert(annotated(current, previous) =~= current);
}

/// Comparing the same two boards once more gives the same marks.
pub proof fn lemma_changes_repeat(
    current: Seq<AthleteSummary>,
    previous: Seq<AthleteSummary>,
    current_again: Seq<AthleteSummary>,
    previous_again: Seq<AthleteSummary>,
)
    requires
        views(current) == views(current_again),
        views(previous) == views(previous_again),
    ensures
        changes_of(views(current), views(previous)) == changes_of(
            views(current_again),
            views(previous_again),
        ),
        annotated(views(current), views(previous)) == annotated(
            views(current_again),
            views(previous_again),
        ),
{
}

/// The distance of the leader of a board.
pub fn leader(rows: &Vec<AthleteSummary>) -> (distance: Measure)
    ensures
        distance == leader_distance(views(rows@)),
{
    let mut best = Measure::Unknown;
    let mut n: usize = 0;
    while n < rows.len()
        invariant
            n <= rows.len(),
            best == leader_of_first(views(rows@), n as nat),
        decreases rows.len() - n,
    {
        let unknown = match best {
            Measure::Unknown => true,
            Measure::Known(_) => false,
        };
        if unknown || rows[n].distance.is_less_than(&best) {
            best = rows[n].distance;
        }
        n += 1;
    }
    best
}

/// How far behind the leader a row is.
fn gap_between(distance: Measure, leader: Measure) -> (behind: Option<i128>)
    ensures
        match behind {
            Some(g) => gap(distance, leader) == Some(g as int),
            None => gap(distance, leader) is None,
        },
        behind is Some ==> -0x1_0000_0000_0000_0000 <= behind->Some_0 <= 0x1_0000_0000_0000_0000,
{
    match (distance, leader) {
        (Measure::Known(d), Measure::Known(l)) => Some(d as i128 - l as i128),
        _ => None,
    }
}

/// The row of `team` on a board: the index of the first row with that team.
pub fn find_team(rows: &Vec<AthleteSummary>, team: &String) -> (found: Option<usize>)
    ensures
        match found {
            Some(at) => at < rows.len() && first_match(teams(views(rows@)), team@) == Some(
                at as int,
            ),
            None => first_match(teams(views(rows@)), team@) is None,
        },
{
    let ghost all = teams(views(rows@));
    let mut i: usize = 0;
    while i < rows.len()
        invariant
            i <= rows.len(),
            all == teams(views(rows@)),
            forall|k: int| 0 <= k < i ==> all[k] != team@,
        decreases rows.len() - i,
    {
        if rows[i].team == *team {
            proof {
                lemma_first_match_is(all, team@, 0, i as int);
            }
            return Some(i);
        }
        i += 1;
    }
    proof {
        lemma_first_match_none(all, team@, 0);
    }
    None
}

/// The change of every row of `current` against `previous`, in the order of
/// `current`.
pub fn changes(current: &Vec<AthleteSummary>, previous: &Vec<AthleteSummary>) -> (marks: Vec<
    Change,
>)
    ensures
        marks@ == changes_of(views(current@), views(previous@)),
{
    let lead = leader(current);
    let previous_lead = leader(previous);
    let mut marks: Vec<Change> = Vec::new();
    let mut i: usize = 0;
    while i < current.len()
        invariant
            i <= current.len(),
            marks.len() == i,
            lead == leader_distance(views(current@)),
            previous_lead == leader_distance(views(previous@)),
            forall|k: int|
                0 <= k < i ==> marks[k] == change_at(views(current@), views(previous@), k),
        decreases current.len() - i,
    {
        let kind = match find_team(previous, &current[i].team) {
            None => Change::RankUp,
            Some(at) => {
                let now = gap_between(current[i].distance, lead);
                let then = gap_between(previous[at].distance, previous_lead);
                let grown: Option<i128> = match (now, then) {
                    (Some(c), Some(p)) => Some(c - p),
                    _ => None,
                };
                Change::decide(current[i].rank, previous[at].rank, grown)
            },
        };
        marks.push(kind);
        i += 1;
    }
    marks
}

/// Marks every row of `current` with its change against `previous`.
pub fn annotate(current: &mut Vec<AthleteSummary>, previous: &Vec<AthleteSummary>)
    ensures
        views(final(current)@) == annotated(views(old(current)@), views(previous@)),
{
    let ghost before = views(current@);
    let marks = changes(current, previous);
    let mut i: usize = 0;
    while i < current.len()
        invariant
            i <= current.len(),
            current.len() == before.len(),
            marks@ == changes_of(before, views(previous@)),
            forall|k: int| 0 <= k < i ==> (#[trigger] current[k])@ == before[k].marked(marks[k]),
            forall|k: int| i <= k < current.len() ==> (#[trigger] current[k])@ == before[k],
        decreases current.len() - i,
    {
        current[i].mark(marks[i]);
        i += 1;
    }
}

} // verus!
