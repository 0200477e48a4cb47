use std::cmp::Ordering;
use xalps::delta::{annotate, changes, find_team, leader};
use xalps::measure::Measure;
use xalps::summary::Change;
use xalps::{AthleteStatus, AthleteSummary};

fn km(value: f64) -> Measure {
    if value.is_nan() {
        Measure::Unknown
    } else {
        Measure::Known((value * 1_000_000.0).round() as i64)
    }
}

fn row(name: &str, team: &str, rank: usize, distance: f64) -> AthleteSummary {
    AthleteSummary {
        full_name: String::from(name),
        team: String::from(team),
        altitude: Some(1000),
        speed: Some(20),
        distance: km(distance),
        rank,
        status: AthleteStatus::Fly,
        last_update: String::from("0min and 0s ago"),
    }
}

#[test]
fn mark_appends_the_glyph_of_each_change() {
    let mut up = row("Max A", "AUT1", 0, 1.0);
    up.mark(Change::RankUp);
    assert_eq!(up.full_name, "Max A ▲ ");
    let mut down = row("Max A", "AUT1", 0, 1.0);
    down.mark(Change::RankDown);
    assert_eq!(down.full_name, "Max A ▼ ");
    let mut closer = row("Max A", "AUT1", 0, 1.0);
    closer.mark(Change::TendencyUp);
    assert_eq!(closer.full_name, "Max A △");
    let mut farther = row("Max A", "AUT1", 0, 1.0);
    farther.mark(Change::TendencyDown);
    assert_eq!(farther.full_name, "Max A ▽");
    let mut same = row("Max A", "AUT1", 0, 1.0);
    same.mark(Change::NoChange);
    assert_eq!(same.full_name, "Max A");
}

#[test]
fn mark_changes_the_name_only() {
    let mut marked = row("Max A", "AUT1", 3, 12.5);
    marked.mark(Change::RankDown);
    let mut expected = row("Max A", "AUT1", 3, 12.5);
    expected.full_name = String::from("Max A ▼ ");
    assert_eq!(marked, expected);
}

#[test]
fn decide_by_place_first() {
    assert_eq!(Change::decide(2, 1, Some(-5)), Change::RankDown);
    assert_eq!(Change::decide(1, 2, Some(5)), Change::RankUp);
    assert_eq!(Change::decide(0, 7, None), Change::RankUp);
}

#[test]
fn decide_by_drift_where_the_place_is_the_same() {
    assert_eq!(Change::decide(1, 1, Some(1)), Change::TendencyDown);
    assert_eq!(Change::decide(1, 1, Some(-1)), Change::TendencyUp);
    assert_eq!(Change::decide(1, 1, Some(0)), Change::NoChange);
    assert_eq!(Change::decide(1, 1, None), Change::NoChange);
}

#[test]
fn mark_if_changed_by_place() {
    let before = row("Max A", "AUT1", 1, 50.0);
    let mut better = row("Max A", "AUT1", 0, 20.0);
    better.mark_if_changed(&before, Some(Ordering::Greater));
    assert_eq!(better.full_name, "Max A ▲ ");
    let mut worse = row("Max A", "AUT1", 2, 20.0);
    worse.mark_if_changed(&before, Some(Ordering::Less));
    assert_eq!(worse.full_name, "Max A ▼ ");
}

#[test]
fn mark_if_changed_by_tendency() {
    let before = row("Max A", "AUT1", 1, 50.0);
    let mut farther = row("Max A", "AUT1", 1, 50.0);
    farther.mark_if_changed(&before, Some(Ordering::Greater));
    assert_eq!(farther.full_name, "Max A ▽");
    let mut closer = row("Max A", "AUT1", 1, 50.0);
    closer.mark_if_changed(&before, Some(Ordering::Less));
    assert_eq!(closer.full_name, "Max A △");
    let mut equal = row("Max A", "AUT1", 1, 50.0);
    equal.mark_if_changed(&before, Some(Ordering::Equal));
    assert_eq!(equal.full_name, "Max A");
    let mut incomparable = row("Max A", "AUT1", 1, 50.0);
    incomparable.mark_if_changed(&before, None);
    assert_eq!(incomparable.full_name, "Max A");
}

#[test]
fn leader_is_the_smallest_known_distance() {
    assert_eq!(leader(&Vec::new()), Measure::Unknown);
    assert_eq!(leader(&vec![row("a", "A", 0, 30.0), row("b", "B", 1, 50.0)]), km(30.0));
    assert_eq!(leader(&vec![row("a", "A", 0, 50.0), row("b", "B", 1, 30.0)]), km(30.0));
    assert_eq!(leader(&vec![row("a", "A", 0, f64::NAN), row("b", "B", 1, 30.0)]), km(30.0));
    assert_eq!(leader(&vec![row("a", "A", 0, f64::NAN)]), Measure::Unknown);
}

#[test]
fn find_team_gives_the_first_row_of_the_team() {
    let rows = vec![row("a", "A", 0, 1.0), row("b", "B", 1, 2.0), row("c", "B", 2, 3.0)];
    assert_eq!(find_team(&rows, &String::from("A")), Some(0));
    assert_eq!(find_team(&rows, &String::from("B")), Some(1));
    assert_eq!(find_team(&rows, &String::from("C")), None);
}

#[test]
fn annotate_marks_a_change_of_places() {
    let previous = vec![row("Lea B", "GER1", 0, 30.0), row("Max A", "AUT1", 1, 50.0)];
    let mut current = vec![row("Max A", "AUT1", 0, 20.0), row("Lea B", "GER1", 1, 30.0)];
    assert_eq!(changes(&current, &previous), vec![Change::RankUp, Change::RankDown]);
    annotate(&mut current, &previous);
    assert_eq!(current[0].full_name, "Max A ▲ ");
    assert_eq!(current[1].full_name, "Lea B ▼ ");
    assert_eq!(current[0].rank, 0);
    assert_eq!(current[0].distance, km(20.0));
    assert_eq!(current[1].rank, 1);
    assert_eq!(current[1].distance, km(30.0));
}

#[test]
fn annotate_joins_by_team_not_by_position() {
    let previous = vec![row("x", "T1", 0, 10.0), row("y", "T2", 1, 20.0), row("z", "T3", 2, 30.0)];
    let current = vec![row("z", "T3", 0, 5.0), row("x", "T1", 1, 10.0), row("y", "T2", 2, 20.0)];
    assert_eq!(
        changes(&current, &previous),
        vec![Change::RankUp, Change::RankDown, Change::RankDown]
    );
}

#[test]
fn annotate_marks_a_new_team_as_risen() {
    let previous = vec![row("Lea B", "GER1", 0, 30.0)];
    let mut current = vec![row("Lea B", "GER1", 0, 30.0), row("New C", "SUI1", 1, 70.0)];
    annotate(&mut current, &previous);
    assert_eq!(current[0].full_name, "Lea B");
    assert_eq!(current[1].full_name, "New C ▲ ");
}

#[test]
fn annotate_against_an_empty_board_marks_every_row_as_risen() {
    let mut current = vec![row("a", "A", 0, 1.0), row("b", "B", 1, 2.0)];
    annotate(&mut current, &Vec::new());
    assert_eq!(current[0].full_name, "a ▲ ");
    assert_eq!(current[1].full_name, "b ▲ ");
}

#[test]
fn annotate_of_an_empty_board_is_empty() {
    let mut current: Vec<AthleteSummary> = Vec::new();
    annotate(&mut current, &vec![row("a", "A", 0, 1.0)]);
    assert!(current.is_empty());
}

#[test]
fn tendency_is_measured_against_the_leader() {
    let previous = vec![row("a", "A", 0, 100.0), row("b", "B", 1, 150.0), row("c", "C", 2, 180.0)];
    let current = vec![row("a", "A", 0, 90.0), row("b", "B", 1, 130.0), row("c", "C", 2, 175.0)];
    assert_eq!(
        changes(&current, &previous),
        vec![Change::NoChange, Change::TendencyUp, Change::TendencyDown]
    );
}

#[test]
fn tendency_uses_the_leader_of_each_board() {
    // The athlete came 5 km closer to the goal, but the leader came 20 km
    // closer: measured against the leader of each board the athlete fell back.
    let previous = vec![row("a", "A", 0, 100.0), row("b", "B", 1, 150.0)];
    let current = vec![row("a", "A", 0, 80.0), row("b", "B", 1, 145.0)];
    assert_eq!(changes(&current, &previous), vec![Change::NoChange, Change::TendencyDown]);
}

#[test]
fn tendency_with_an_unknown_distance_is_no_change() {
    let previous = vec![row("a", "A", 0, 100.0), row("b", "B", 1, 150.0)];
    let current = vec![row("a", "A", 0, 90.0), row("b", "B", 1, f64::NAN)];
    assert_eq!(changes(&current, &previous), vec![Change::NoChange, Change::NoChange]);
    let unknown_before = vec![row("a", "A", 0, 100.0), row("b", "B", 1, f64::NAN)];
    let known_now = vec![row("a", "A", 0, 90.0), row("b", "B", 1, 120.0)];
    assert_eq!(changes(&known_now, &unknown_before), vec![Change::NoChange, Change::NoChange]);
}

#[test]
fn tendency_with_extreme_distances_does_not_overflow() {
    let far = |name: &str, team: &str, rank: usize, value: i64| AthleteSummary {
        distance: Measure::Known(value),
        ..row(name, team, rank, 0.0)
    };
    let previous = vec![far("a", "A", 0, i64::MAX), far("b", "B", 1, i64::MAX)];
    let current = vec![far("a", "A", 0, i64::MIN), far("b", "B", 1, i64::MAX)];
    assert_eq!(changes(&current, &previous), vec![Change::NoChange, Change::TendencyDown]);
}

#[test]
fn comparing_twice_gives_the_same_marks() {
    let previous = vec![row("a", "A", 0, 100.0), row("b", "B", 1, 150.0), row("c", "C", 2, 180.0)];
    let current = vec![row("c", "C", 0, 70.0), row("a", "A", 1, 90.0), row("d", "D", 2, 95.0)];
    let first = changes(&current, &previous);
    let second = changes(&current, &previous);
    assert_eq!(first, second);
    let mut once = current.clone();
    annotate(&mut once, &previous);
    let mut again = current.clone();
    annotate(&mut again, &previous);
    assert_eq!(once, again);
}

#[test]
fn marks_of_the_previous_board_do_not_matter() {
    let previous = vec![row("a", "A", 0, 100.0), row("b", "B", 1, 150.0)];
    let mut marked = previous.clone();
    annotate(&mut marked, &Vec::new());
    assert_eq!(marked[0].full_name, "a ▲ ");
    let current = vec![row("b", "B", 0, 60.0), row("a", "A", 1, 90.0)];
    assert_eq!(changes(&current, &marked), changes(&current, &previous));
}

#[test]
fn tendency_against_one_shared_leader_reads_otherwise() {
    // The same boards as in `tendency_uses_the_leader_of_each_board`. Who
    // subtracts one and the same leader distance on both sides compares the
    // athlete's own distances, 145 km now and 150 km then, and sees the
    // athlete gaining; `mark_if_changed` takes that reading from its caller.
    let previous = vec![row("a", "A", 0, 100.0), row("b", "B", 1, 150.0)];
    let mut current = vec![row("a", "A", 0, 80.0), row("b", "B", 1, 145.0)];
    let shared: f64 = 100.0 - 80.0;
    let tendency = (145.0 - shared).partial_cmp(&(150.0 - shared));
    assert_eq!(tendency, Some(Ordering::Less));
    current[1].mark_if_changed(&previous[1], tendency);
    assert_eq!(current[1].full_name, "b △");
}

#[test]
fn annotate_of_an_unchanged_board_marks_nothing() {
    let previous = vec![row("a", "A", 0, 100.0), row("b", "B", 1, 150.0), row("c", "C", 2, 180.0)];
    let mut current = previous.clone();
    annotate(&mut current, &previous);
    assert_eq!(current, previous);
}
