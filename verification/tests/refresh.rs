use xalps::measure::Measure;
use xalps::overview::{Athlete, DateRange, News, Overview, ThreeDimensionalModels};
use xalps::refresh::{copy_rows, same_rows, wait_millis, Refresh, Step, INTERVAL_MS, TOP_ROWS};
use xalps::{AthleteStatus, AthleteSummary, RaceStatus};

fn row(name: &str, team: &str, rank: usize, distance: i64) -> AthleteSummary {
    AthleteSummary {
        full_name: String::from(name),
        team: String::from(team),
        altitude: Some(1000),
        speed: None,
        distance: Measure::Known(distance),
        rank,
        status: AthleteStatus::Hike,
        last_update: String::from("1min and 2s ago"),
    }
}

fn board(size: usize) -> Vec<AthleteSummary> {
    let names = ["a", "b", "c", "d", "e", "f", "g", "h"];
    let teams = ["T0", "T1", "T2", "T3", "T4", "T5", "T6", "T7"];
    (0..size).map(|i| row(names[i], teams[i], i, 10 * (i as i64 + 1))).collect()
}

fn roster() -> Overview {
    Overview {
        three_dimensional_models: ThreeDimensionalModels {
            map_icons: String::new(),
            paraglider: String::new(),
            status_icons: String::new(),
        },
        athlete_status: String::new(),
        athletes: vec![Athlete::new("1", "Max", "A", "AUT1"), Athlete::new("2", "Lea", "B", "GER1")],
        clock_dates: DateRange { end_time: 0, start_time: 0 },
        news: News { latest: String::new(), list: String::new() },
        race_dates: DateRange { end_time: 0, start_time: 0 },
        turnpoints: Vec::new(),
    }
}

fn status(id: &str, distance: i64) -> RaceStatus {
    RaceStatus {
        athlete_id: String::from(id),
        timestamp: 0,
        status: AthleteStatus::Fly,
        distance_to_goal: Measure::Known(distance),
        altitude: 0,
        speed: 0,
    }
}

#[test]
fn constants_of_the_cycle() {
    assert_eq!(TOP_ROWS, 5);
    assert_eq!(INTERVAL_MS, 5_000);
}

#[test]
fn wait_is_the_rest_of_the_interval() {
    assert_eq!(wait_millis(5_000, 0), 5_000);
    assert_eq!(wait_millis(5_000, 1_200), 3_800);
    assert_eq!(wait_millis(5_000, 4_999), 1);
}

#[test]
fn wait_is_zero_when_the_step_took_too_long() {
    assert_eq!(wait_millis(5_000, 5_000), 0);
    assert_eq!(wait_millis(5_000, 7_000), 0);
    assert_eq!(wait_millis(5_000, u64::MAX), 0);
    assert_eq!(wait_millis(0, 0), 0);
}

#[test]
fn same_rows_compares_every_field() {
    assert!(same_rows(&board(3), &board(3)));
    assert!(same_rows(&Vec::new(), &Vec::new()));
    assert!(!same_rows(&board(3), &board(2)));
    let mut other = board(3);
    other[2].full_name = String::from("c ▲ ");
    assert!(!same_rows(&board(3), &other));
    let mut other = board(3);
    other[1].speed = Some(0);
    assert!(!same_rows(&board(3), &other));
    let mut other = board(3);
    other[0].last_update = String::from("1min and 3s ago");
    assert!(!same_rows(&board(3), &other));
}

#[test]
fn copy_rows_copies() {
    assert_eq!(copy_rows(&board(4)), board(4));
    assert_eq!(copy_rows(&Vec::new()), Vec::new());
}

#[test]
fn first_tick_draws_the_board_without_marks() {
    let mut state = Refresh::new();
    assert_eq!(state.last, None);
    let step = state.tick(board(3));
    assert_eq!(step, Step::Render(board(3)));
    assert_eq!(state.last, Some(board(3)));
}

#[test]
fn tick_cuts_the_board_to_its_top() {
    let mut state = Refresh::new();
    let step = state.tick(board(8));
    assert_eq!(step, Step::Render(board(5)));
    assert_eq!(state.last, Some(board(5)));
}

#[test]
fn tick_with_the_same_top_draws_nothing() {
    let mut state = Refresh::new();
    assert!(matches!(state.tick(board(5)), Step::Render(_)));
    assert_eq!(state.tick(board(5)), Step::Skip);
    assert_eq!(state.tick(board(5)), Step::Skip);
    assert_eq!(state.last, Some(board(5)));
}

#[test]
fn tick_ignores_changes_below_the_top() {
    let mut state = Refresh::new();
    assert!(matches!(state.tick(board(7)), Step::Render(_)));
    let mut next = board(7);
    next[6].distance = Measure::Known(1_000);
    next[5].full_name = String::from("renamed");
    assert_eq!(state.tick(next), Step::Skip);
}

#[test]
fn tick_with_a_changed_top_draws_marked_rows() {
    let mut state = Refresh::new();
    assert!(matches!(state.tick(board(2)), Step::Render(_)));
    let next = vec![row("b", "T1", 0, 5), row("a", "T0", 1, 10)];
    let step = state.tick(next.clone());
    let mut expected = next.clone();
    expected[0].full_name = String::from("b ▲ ");
    expected[1].full_name = String::from("a ▼ ");
    assert_eq!(step, Step::Render(expected));
    assert_eq!(state.last, Some(next));
}

#[test]
fn tick_remembers_rows_without_marks() {
    let mut state = Refresh::new();
    assert!(matches!(state.tick(board(2)), Step::Render(_)));
    let next = vec![row("b", "T1", 0, 5), row("a", "T0", 1, 10)];
    assert!(matches!(state.tick(next.clone()), Step::Render(_)));
    assert_eq!(state.last, Some(next.clone()));
    assert_eq!(state.tick(next.clone()), Step::Skip);
    assert_eq!(state.last, Some(next.clone()));
    assert_eq!(state.tick(next), Step::Skip);
}

#[test]
fn tick_after_marks_skips_the_same_board() {
    let mut state = Refresh { last: Some(vec![row("a", "T0", 1, 10)]) };
    let better = vec![row("a", "T0", 0, 10)];
    let mut marked = better.clone();
    marked[0].full_name = String::from("a ▲ ");
    assert_eq!(state.tick(better.clone()), Step::Render(marked));
    assert_eq!(state.last, Some(better.clone()));
    assert_eq!(state.tick(better), Step::Skip);
}

#[test]
fn marks_do_not_pile_up() {
    let mut state = Refresh::new();
    assert!(matches!(state.tick(board(2)), Step::Render(_)));
    let swapped = vec![row("b", "T1", 0, 5), row("a", "T0", 1, 10)];
    assert!(matches!(state.tick(swapped), Step::Render(_)));
    // Back to the first order: each name gets one mark, behind the name as
    // it was built.
    let mut expected = board(2);
    expected[0].full_name = String::from("a ▲ ");
    expected[1].full_name = String::from("b ▼ ");
    assert_eq!(state.tick(board(2)), Step::Render(expected));
    assert_eq!(state.last, Some(board(2)));
}

#[test]
fn tick_draws_an_empty_board_once() {
    let mut state = Refresh::new();
    assert_eq!(state.tick(Vec::new()), Step::Render(Vec::new()));
    assert_eq!(state.tick(Vec::new()), Step::Skip);
}

#[test]
fn ticks_of_a_race() {
    let mut state = Refresh::new();
    let first = vec![status("1", 50_000_000), status("2", 30_000_000)];
    let rows = AthleteSummary::build(&roster(), &first, None, 0).unwrap();
    match state.tick(rows) {
        Step::Render(shown) => {
            let names: Vec<&str> = shown.iter().map(|r| r.full_name.as_str()).collect();
            assert_eq!(names, vec!["Lea B", "Max A"]);
            let ranks: Vec<usize> = shown.iter().map(|r| r.rank).collect();
            assert_eq!(ranks, vec![0, 1]);
        }
        Step::Skip => panic!("the first board must be drawn"),
    }
    let second = vec![status("1", 20_000_000), status("2", 30_000_000)];
    let rows = AthleteSummary::build(&roster(), &second, None, 0).unwrap();
    match state.tick(rows) {
        Step::Render(shown) => {
            let names: Vec<&str> = shown.iter().map(|r| r.full_name.as_str()).collect();
            assert_eq!(names, vec!["Max A ▲ ", "Lea B ▼ "]);
        }
        Step::Skip => panic!("a change of places must be drawn"),
    }
    let rows = AthleteSummary::build(&roster(), &second, None, 0).unwrap();
    assert_eq!(state.tick(rows.clone()), Step::Skip);
    assert_eq!(state.last, Some(rows));
}
