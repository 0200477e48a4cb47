use xalps::measure::Measure;
use xalps::ranking::rank_order;
use xalps::track_response::{ApiTrackPoint, ApiTrackResponse};

fn measure(value: f64) -> Measure {
    if value.is_nan() {
        Measure::Unknown
    } else {
        Measure::Known((value * 1_000_000.0).round() as i64)
    }
}

fn measures(values: &[f64]) -> Vec<Measure> {
    values.iter().map(|v| measure(*v)).collect()
}

fn point(timestamp: Measure, altitude: i64) -> ApiTrackPoint {
    ApiTrackPoint {
        timestamp,
        lat: Measure::Known(47_000_000),
        lng: Measure::Known(13_000_000),
        altitude: Measure::Known(altitude),
        altitude_agl: Measure::Known(0),
        status: None,
        speed: Measure::Known(0),
        vertical_speed: Measure::Known(0),
    }
}

#[test]
fn measure_compares_known_values() {
    assert!(Measure::Known(5).is_less_than(&Measure::Known(6)));
    assert!(!Measure::Known(6).is_less_than(&Measure::Known(5)));
    assert!(!Measure::Known(5).is_less_than(&Measure::Known(5)));
    assert!(Measure::Known(-3).is_less_than(&Measure::Known(0)));
}

#[test]
fn measure_unknown_is_neither_less_nor_greater() {
    assert!(!Measure::Unknown.is_less_than(&Measure::Known(5)));
    assert!(!Measure::Known(5).is_less_than(&Measure::Unknown));
    assert!(!Measure::Unknown.is_less_than(&Measure::Unknown));
}

#[test]
fn measure_whole_units() {
    assert_eq!(Measure::Known(0).whole(), Some(0));
    assert_eq!(Measure::Known(999_999).whole(), Some(0));
    assert_eq!(Measure::Known(1_000_000).whole(), Some(1));
    assert_eq!(Measure::Known(2_417_500_000).whole(), Some(2417));
    assert_eq!(Measure::Known(-1).whole(), None);
    assert_eq!(Measure::Unknown.whole(), None);
}

#[test]
fn rank_order_of_nothing_is_empty() {
    assert_eq!(rank_order(&Vec::new()), Vec::<usize>::new());
}

#[test]
fn rank_order_sorts_ascending() {
    assert_eq!(rank_order(&measures(&[50.0, 30.0])), vec![1, 0]);
    assert_eq!(rank_order(&measures(&[3.0, 1.0, 2.0, 0.5])), vec![3, 1, 2, 0]);
    assert_eq!(rank_order(&measures(&[1.0, 2.0, 3.0])), vec![0, 1, 2]);
}

#[test]
fn rank_order_keeps_equal_entries_in_feed_order() {
    assert_eq!(rank_order(&measures(&[5.0, 5.0, 5.0])), vec![0, 1, 2]);
    assert_eq!(rank_order(&measures(&[7.0, 5.0, 7.0, 5.0])), vec![1, 3, 0, 2]);
}

#[test]
fn rank_order_with_equal_and_unknown_distances() {
    let distances = measures(&[12.0, 5.0, 5.0, f64::NAN]);
    let order = rank_order(&distances);
    assert_eq!(order, vec![1, 2, 0, 3]);
    for _ in 0..10 {
        assert_eq!(rank_order(&distances), order);
    }
}

#[test]
fn rank_order_unknown_stops_what_moves_towards_it() {
    assert_eq!(rank_order(&measures(&[f64::NAN, 5.0, 12.0])), vec![0, 1, 2]);
    assert_eq!(rank_order(&measures(&[12.0, f64::NAN, 5.0])), vec![0, 1, 2]);
    assert_eq!(rank_order(&measures(&[12.0, 5.0, f64::NAN, 1.0])), vec![1, 0, 2, 3]);
}

#[test]
fn rank_order_is_a_permutation() {
    let distances = measures(&[9.0, f64::NAN, 3.0, 3.0, 11.5, 0.0, f64::NAN, 2.0]);
    let mut order = rank_order(&distances);
    order.sort();
    assert_eq!(order, vec![0, 1, 2, 3, 4, 5, 6, 7]);
}

#[test]
fn latest_of_empty_track_is_none() {
    let track = ApiTrackResponse { athlete_id: 29, track_points: Vec::new() };
    assert_eq!(track.latest(), None);
}

#[test]
fn latest_has_greatest_timestamp() {
    let track = ApiTrackResponse {
        athlete_id: 29,
        track_points: vec![
            point(measure(100.0), 1),
            point(measure(300.5), 2),
            point(measure(200.0), 3),
        ],
    };
    assert_eq!(track.latest().unwrap().altitude, Measure::Known(2));
}

#[test]
fn latest_is_last_of_equal_timestamps() {
    let track = ApiTrackResponse {
        athlete_id: 29,
        track_points: vec![
            point(measure(300.0), 1),
            point(measure(100.0), 2),
            point(measure(300.0), 3),
        ],
    };
    assert_eq!(track.latest().unwrap().altitude, Measure::Known(3));
}

#[test]
fn latest_with_unknown_timestamp_does_not_fail() {
    let track = ApiTrackResponse {
        athlete_id: 29,
        track_points: vec![
            point(measure(300.0), 1),
            point(measure(f64::NAN), 2),
            point(measure(100.0), 3),
        ],
    };
    // The unknown timestamp counts as equal to 300, so the later point wins;
    // 100 in turn counts as equal to the unknown one.
    assert_eq!(track.latest().unwrap().altitude, Measure::Known(3));
    let single = ApiTrackResponse { athlete_id: 1, track_points: vec![point(Measure::Unknown, 9)] };
    assert_eq!(single.latest().unwrap().altitude, Measure::Known(9));
}

fn pseudo_random(seed: &mut u64) -> u64 {
    *seed = seed.wrapping_mul(6364136223846793005).wrapping_add(1442695040888963407);
    *seed >> 33
}

#[test]
fn rank_order_of_known_distances_is_the_stable_sort() {
    let mut seed: u64 = 7;
    for round in 0..200 {
        let size = (pseudo_random(&mut seed) % 40) as usize;
        let keys: Vec<Measure> =
            (0..size).map(|_| Measure::Known((pseudo_random(&mut seed) % 8) as i64 - 3)).collect();
        let mut expected: Vec<usize> = (0..size).collect();
        expected.sort_by_key(|i| match keys[*i] {
            Measure::Known(value) => value,
            Measure::Unknown => unreachable!(),
        });
        assert_eq!(rank_order(&keys), expected, "round {}", round);
    }
}

#[test]
fn rank_order_with_unknown_distances_never_inverts_neighbours() {
    let mut seed: u64 = 11;
    for _ in 0..200 {
        let size = (pseudo_random(&mut seed) % 30) as usize;
        let keys: Vec<Measure> = (0..size)
            .map(|_| {
                let draw = pseudo_random(&mut seed) % 10;
                if draw < 3 {
                    Measure::Unknown
                } else {
                    Measure::Known(draw as i64)
                }
            })
            .collect();
        let order = rank_order(&keys);
        let mut seen = order.clone();
        seen.sort();
        assert_eq!(seen, (0..size).collect::<Vec<usize>>());
        for i in 1..size {
            assert!(!keys[order[i]].is_less_than(&keys[order[i - 1]]));
        }
        for i in 0..size {
            for j in (i + 1)..size {
                if order[i] > order[j] {
                    assert!(keys[order[i]].is_less_than(&keys[order[j]]));
                }
            }
        }
    }
}
