use farkle::dice_m::TakeOption;
use std::collections::HashSet;

fn as_set(options: Vec<TakeOption>) -> HashSet<TakeOption> {
    let n = options.len();
    let set: HashSet<TakeOption> = options.into_iter().collect();
    assert_eq!(set.len(), n, "an option occurs twice");
    set
}

#[test]
fn take_option_one() {
    let options = as_set(TakeOption::one_face_all_combinations(1, 1));
    let expected = [TakeOption {
        dices_used: [1, 0, 0, 0, 0, 0],
        value: 100,
    }];

    let expected_hash = expected.iter().cloned().collect();

    assert_eq!(options, expected_hash);
}

#[test]
fn take_option_two_ones() {
    let options = as_set(TakeOption::one_face_all_combinations(1, 2));
    let expected = [
        TakeOption {
            dices_used: [1, 0, 0, 0, 0, 0],
            value: 100,
        },
        TakeOption {
            dices_used: [2, 0, 0, 0, 0, 0],
            value: 200,
        },
    ];

    let expected_hash = expected.iter().cloned().collect();

    assert_eq!(options, expected_hash);
}

#[test]
fn take_option_three_ones() {
    let options = as_set(TakeOption::one_face_all_combinations(1, 3));
    let expected = [
        TakeOption {
            dices_used: [1, 0, 0, 0, 0, 0],
            value: 100,
        },
        TakeOption {
            dices_used: [2, 0, 0, 0, 0, 0],
            value: 200,
        },
        TakeOption {
            dices_used: [3, 0, 0, 0, 0, 0],
            value: 1000,
        },
    ];

    let expected_hash = expected.iter().cloned().collect();

    assert_eq!(options, expected_hash);
}

#[test]
fn take_option_four_ones() {
    let options = as_set(TakeOption::one_face_all_combinations(1, 4));
    let expected = [
        TakeOption {
            dices_used: [1, 0, 0, 0, 0, 0],
            value: 100,
        },
        TakeOption {
            dices_used: [2, 0, 0, 0, 0, 0],
            value: 200,
        },
        TakeOption {
            dices_used: [3, 0, 0, 0, 0, 0],
            value: 1000,
        },
        TakeOption {
            dices_used: [4, 0, 0, 0, 0, 0],
            value: 2000,
        },
    ];

    let expected_hash = expected.iter().cloned().collect();

    assert_eq!(options, expected_hash);
}

#[test]
fn take_option_five_ones() {
    let options = as_set(TakeOption::one_face_all_combinations(1, 5));
    let expected = [
        TakeOption {
            dices_used: [1, 0, 0, 0, 0, 0],
            value: 100,
        },
        TakeOption {
            dices_used: [2, 0, 0, 0, 0, 0],
            value: 200,
        },
        TakeOption {
            dices_used: [3, 0, 0, 0, 0, 0],
            value: 1000,
        },
        TakeOption {
            dices_used: [4, 0, 0, 0, 0, 0],
            value: 2000,
        },
        TakeOption {
            dices_used: [5, 0, 0, 0, 0, 0],
            value: 4000,
        },
    ];

    let expected_hash = expected.iter().cloned().collect();

    assert_eq!(options, expected_hash);
}

#[test]
fn take_option_six_ones() {
    let options = as_set(TakeOption::one_face_all_combinations(1, 6));
    let expected = [
        TakeOption {
            dices_used: [1, 0, 0, 0, 0, 0],
            value: 100,
        },
        TakeOption {
            dices_used: [2, 0, 0, 0, 0, 0],
            value: 200,
        },
        TakeOption {
            dices_used: [3, 0, 0, 0, 0, 0],
            value: 1000,
        },
        TakeOption {
            dices_used: [4, 0, 0, 0, 0, 0],
            value: 2000,
        },
        TakeOption {
            dices_used: [5, 0, 0, 0, 0, 0],
            value: 4000,
        },
        TakeOption {
            dices_used: [6, 0, 0, 0, 0, 0],
            value: 8000,
        },
    ];

    let expected_hash = expected.iter().cloned().collect();

    assert_eq!(options, expected_hash);
}

#[test]
fn take_option_no_value_combinations() {
    let mut options = HashSet::new();
    let expected = HashSet::new();

    for &dice_val in &[2, 3, 4, 6] {
        options.extend(TakeOption::one_face_all_combinations(dice_val, 1));
        options.extend(TakeOption::one_face_all_combinations(dice_val, 2));
    }

    assert_eq!(options, expected);
}

#[test]
fn take_option_triples() {
    let mut options = HashSet::new();
    for dice_val in 1..=6 {
        options.extend(TakeOption::one_face_all_combinations(dice_val, 3));
    }

    let expected = [
        TakeOption {
            dices_used: [1, 0, 0, 0, 0, 0],
            value: 100,
        },
        TakeOption {
            dices_used: [2, 0, 0, 0, 0, 0],
            value: 200,
        },
        TakeOption {
            dices_used: [3, 0, 0, 0, 0, 0],
            value: 1000,
        },
        TakeOption {
            dices_used: [0, 3, 0, 0, 0, 0],
            value: 200,
        },
        TakeOption {
            dices_used: [0, 0, 3, 0, 0, 0],
            value: 300,
        },
        TakeOption {
            dices_used: [0, 0, 0, 3, 0, 0],
            value: 400,
        },
        TakeOption {
            dices_used: [0, 0, 0, 0, 1, 0],
            value: 50,
        },
        TakeOption {
            dices_used: [0, 0, 0, 0, 2, 0],
            value: 100,
        },
        TakeOption {
            dices_used: [0, 0, 0, 0, 3, 0],
            value: 500,
        },
        TakeOption {
            dices_used: [0, 0, 0, 0, 0, 3],
            value: 600,
        },
    ];

    let expected_hash = expected.iter().cloned().collect();

    assert_eq!(options, expected_hash);
}

#[test]
fn take_option_quads() {
    let options = as_set(TakeOption::one_face_all_combinations(4, 4));
    let expected = [
        TakeOption {
            dices_used: [0, 0, 0, 3, 0, 0],
            value: 400,
        },
        TakeOption {
            dices_used: [0, 0, 0, 4, 0, 0],
            value: 800,
        },
    ];

    let expected_hash = expected.iter().cloned().collect();

    assert_eq!(options, expected_hash);
}

#[test]
fn no_dice_no_options() {
    for face in 1..=6 {
        assert!(TakeOption::one_face_all_combinations(face, 0).is_empty());
    }
}

#[test]
fn fives_score_half_of_ones() {
    let options = TakeOption::one_face_all_combinations(5, 6);
    let expected = vec![
        TakeOption { dices_used: [0, 0, 0, 0, 1, 0], value: 50 },
        TakeOption { dices_used: [0, 0, 0, 0, 2, 0], value: 100 },
        TakeOption { dices_used: [0, 0, 0, 0, 3, 0], value: 500 },
        TakeOption { dices_used: [0, 0, 0, 0, 4, 0], value: 1000 },
        TakeOption { dices_used: [0, 0, 0, 0, 5, 0], value: 2000 },
        TakeOption { dices_used: [0, 0, 0, 0, 6, 0], value: 4000 },
    ];
    assert_eq!(options, expected);
}

#[test]
fn groups_come_smallest_first() {
    let options = TakeOption::one_face_all_combinations(6, 6);
    let expected = vec![
        TakeOption { dices_used: [0, 0, 0, 0, 0, 3], value: 600 },
        TakeOption { dices_used: [0, 0, 0, 0, 0, 4], value: 1200 },
        TakeOption { dices_used: [0, 0, 0, 0, 0, 5], value: 2400 },
        TakeOption { dices_used: [0, 0, 0, 0, 0, 6], value: 4800 },
    ];
    assert_eq!(options, expected);
}

#[test]
fn new_and_default_are_empty() {
    let empty = TakeOption { dices_used: [0; 6], value: 0 };
    assert_eq!(TakeOption::new(), empty);
    assert_eq!(TakeOption::default(), empty);
    assert_eq!(TakeOption::new().dices_count(), 0);
}

#[test]
fn combine_adds_dice_and_points() {
    let one = TakeOption { dices_used: [1, 0, 0, 0, 0, 0], value: 100 };
    let triple = TakeOption { dices_used: [0, 0, 0, 0, 0, 3], value: 600 };
    let both = one.combine(&triple);
    assert_eq!(both, TakeOption { dices_used: [1, 0, 0, 0, 0, 3], value: 700 });
    assert_eq!(triple.combine(&one), both);
    assert_eq!(one.combine(&one), TakeOption { dices_used: [2, 0, 0, 0, 0, 0], value: 200 });
    assert_eq!(both.dices_count(), 4);
}

#[test]
fn dices_count_adds_all_faces() {
    let take = TakeOption { dices_used: [1, 1, 1, 1, 1, 1], value: 2000 };
    assert_eq!(take.dices_count(), 6);
    let take = TakeOption { dices_used: [0, 2, 0, 3, 0, 1], value: 0 };
    assert_eq!(take.dices_count(), 6);
}

#[test]
fn equality_needs_dice_and_value() {
    let a = TakeOption { dices_used: [3, 0, 0, 0, 0, 0], value: 1000 };
    let b = TakeOption { dices_used: [3, 0, 0, 0, 0, 0], value: 300 };
    let c = TakeOption { dices_used: [0, 0, 0, 0, 0, 3], value: 1000 };
    assert_eq!(a, a);
    assert_ne!(a, b);
    assert_ne!(a, c);
    for k in 0..6 {
        let mut used = a.dices_used;
        used[k] += 1;
        assert_ne!(a, TakeOption { dices_used: used, value: 1000 });
    }
}
