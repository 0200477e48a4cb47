//! One step of the refresh cycle.
//!
//! Whoever drives the cycle fetches, builds the board and hands it to
//! [`Refresh::tick`], which says whether there is anything new to draw. The
//! only thing kept from one step to the next is the top of the board of the
//! last step as it was built, without the marks it was drawn with. So a
//! board that is built the same twice in a row is drawn once.
use crate::delta::{annotate, annotated};
use crate::summary::{views, AthleteSummary, SummaryView};
use vstd::prelude::*;

verus! {

/// How many rows of the board are shown.
pub const TOP_ROWS: usize = 5;

/// The time from the start of one step to the start of the next, in
/// milliseconds.
pub const INTERVAL_MS: u64 = 5_000;

/// What to do with the display after a step.
#[derive(Debug, Clone, PartialEq)]
pub enum Step {
    /// Nothing changed: leave the display as it is.
    Skip,
    /// Clear the display and draw these rows.
    Render(Vec<AthleteSummary>),
}

/// What the cycle remembers between two steps.
#[derive(Debug, Clone, PartialEq)]
pub struct Refresh {
    /// The top of the board of the last step, as it was built and without
    /// the marks it was drawn with; `None` before the first step.
    pub last: Option<Vec<AthleteSummary>>,
}

/// The first rows of a board, as many as are shown.
pub open spec fn top_of(rows: Seq<SummaryView>) -> Seq<SummaryView> {
    if rows.len() <= TOP_ROWS {
        rows
    } else {
        rows.take(TOP_ROWS as int)
    }
}

/// The rows that are remembered, as what they hold.
pub open spec fn remembered(last: Option<Vec<AthleteSummary>>) -> Option<Seq<SummaryView>> {
    match last {
        Some(rows) => Some(views(rows@)),
        None => None,
    }
}

/// The rows to draw for the top `top` of a new board: marked against the
/// rows remembered, or as they are where nothing is remembered.
pub open spec fn drawn(top: Seq<SummaryView>, last: Option<Seq<SummaryView>>) -> Seq<SummaryView> {
    match last {
        Some(previous) => annotated(top, previous),
        None => top,
    }
}

/// Whether a step with the board `rows` draws nothing: the top of the board
/// equals the rows remembered, in every field.
pub open spec fn skips(last: Option<Seq<SummaryView>>, rows: Seq<SummaryView>) -> bool {
    last == Some(top_of(rows))
}

/// Of two steps in a row with the same board, the second draws nothing,
/// whatever was remembered before the first and whatever marks the first has
/// drawn: a step leaves the top of its board remembered, and against that
/// the same board is skipped.
pub proof fn lemma_same_board_is_skipped(rows: Seq<SummaryView>)
    ensures
        skips(Some(top_of(rows)), rows),
{
}

/// Whether two boards show the same, row by row.
pub fn same_rows(a: &Vec<AthleteSummary>, b: &Vec<AthleteSummary>) -> (same: bool)
    ensures
        same == (views(a@) == views(b@)),
{
    if a.len() != b.len() {
        proof {
            assert(views(a@).len() != views(b@).len());
        }
        return false;
    }
    let mut i: usize = 0;
    while i < a.len()
        invariant
            i <= a.len(),
            a.len() == b.len(),
            forall|k: int| 0 <= k < i ==> (#[trigger] a[k])@ == b[k]@,
        decreases a.len() - i,
    {
        if !a[i].same_as(&b[i]) {
            proof {
                assert(views(a@)[i as int] != views(b@)[i as int]);
            }
            return false;
        }
        i += 1;
    }
    proof {
        assert(views(a@) =~= views(b@));
    }
    true
}

/// A copy of a board.
pub fn copy_rows(rows: &Vec<AthleteSummary>) -> (copy: Vec<AthleteSummary>)
    ensures
        copy@ == rows@,
{
    let mut copy: Vec<AthleteSummary> = Vec::new();
    let mut i: usize = 0;
    while i < rows.len()
        invariant
            i <= rows.len(),
            copy@ == rows@.take(i as int),
        decreases rows.len() - i,
    {
        copy.push(rows[i].duplicate());
        i += 1;
    }
    copy
}

/// How long to wait after a step that took `elapsed_ms`, so that steps start
/// `interval_ms` apart: the rest of the interval, and nothing where the step
/// took longer than that.
pub fn wait_millis(interval_ms: u64, elapsed_ms: u64) -> (wait: u64)
    ensures
        elapsed_ms >= interval_ms ==> wait == 0,
        elapsed_ms < interval_ms ==> wait == interval_ms - elapsed_ms,
{
    if elapsed_ms >= interval_ms {
        0
    } else {
        interval_ms - elapsed_ms
    }
}

impl Refresh {
    /// The state before the first step: nothing drawn yet.
    pub fn new() -> (state: Refresh)
        ensures
            state.last is None,
    {
        Refresh { last: None }
    }

    /// Takes the board of this step and decides what to draw.
    ///
    /// The board is cut to its first [`TOP_ROWS`] rows. Where these equal the
    /// rows remembered in every field, nothing is drawn. Otherwise the rows
    /// are marked against the remembered ones and handed out for drawing.
    /// Either way the rows are remembered as they were built, without marks,
    /// for the next step.
    pub fn tick(&mut self, summary: Vec<AthleteSummary>) -> (step: Step)
        ensures
            step is Skip <==> skips(remembered(old(self).last), views(summary@)),
            step is Render ==> views(step->Render_0@) == drawn(
                top_of(views(summary@)),
                remembered(old(self).last),
            ),
            remembered(final(self).last) == Some(top_of(views(summary@))),
    {
        let mut rows = summary;
        rows.truncate(TOP_ROWS);
        proof {
            assert(views(rows@) =~= top_of(views(summary@)));
        }
        match &self.last {
            Some(previous) => {
                if same_rows(previous, &rows) {
                    return Step::Skip;
                }
            },
            None => {},
        }
        let built = copy_rows(&rows);
        match &self.last {
            Some(previous) => annotate(&mut rows, previous),
            None => {},
        }
        self.last = Some(built);
        Step::Render(rows)
    }
}

} // verus!
