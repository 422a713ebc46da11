use farkle::dice_m::{Dices, Hand, TakeOption};

fn take(faces: &[i32], value: i32) -> TakeOption {
    let mut dices_used = [0; 6];
    for face in faces {
        dices_used[(*face - 1) as usize] += 1;
    }
    TakeOption { dices_used, value }
}

#[test]
fn dice_m_combine_one_one_five() {
    let hand = Hand::from_dices(Dices::from([1, 1, 3, 4, 4, 5])).unwrap();
    let take_options: Vec<TakeOption> = hand.get_takes().cloned().collect();

    let expected = vec![
        take(&[1], 100),
        take(&[1, 1], 200),
        take(&[5], 50),
        take(&[1, 5], 150),
        take(&[1, 1, 5], 250),
    ];

    println!("hand: {:?}", take_options);

    assert!(take_options.iter().eq(expected.iter()));
}

#[test]
fn dice_m_combine_two_triples() {
    let hand = Hand::from_dices(Dices::from([2, 2, 2, 6, 6, 6])).unwrap();
    let take_options: Vec<TakeOption> = hand.get_takes().cloned().collect();

    let expected = vec![
        take(&[2, 2, 2], 200),
        take(&[6, 6, 6], 600),
        take(&[2, 2, 2, 6, 6, 6], 800),
    ];

    println!("hand: {:?}", take_options);

    assert!(take_options.iter().eq(expected.iter()));
}

#[test]
fn dice_m_one() {
    let options = TakeOption::one_face_all_combinations(1, 1);
    let expected = vec![take(&[1], 100)];

    assert!(options.iter().eq(expected.iter()));
}

#[test]
fn dice_m_two_ones() {
    let options = TakeOption::one_face_all_combinations(1, 2);
    let expected = vec![take(&[1], 100), take(&[1, 1], 200)];

    assert!(options.iter().eq(expected.iter()));
}

#[test]
fn dice_m_three_ones() {
    let options = TakeOption::one_face_all_combinations(1, 3);
    let expected = vec![take(&[1], 100), take(&[1, 1], 200), take(&[1, 1, 1], 1000)];

    assert!(options.iter().eq(expected.iter()));
}

#[test]
fn dice_m_four_ones() {
    let options = TakeOption::one_face_all_combinations(1, 4);
    let expected = vec![
        take(&[1], 100),
        take(&[1, 1], 200),
        take(&[1, 1, 1], 1000),
        take(&[1, 1, 1, 1], 2000),
    ];

    assert!(options.iter().eq(expected.iter()));
}

#[test]
fn dice_m_five_ones() {
    let options = TakeOption::one_face_all_combinations(1, 5);
    let expected = vec![
        take(&[1], 100),
        take(&[1, 1], 200),
        take(&[1, 1, 1], 1000),
        take(&[1, 1, 1, 1], 2000),
        take(&[1, 1, 1, 1, 1], 4000),
    ];

    assert!(options.iter().eq(expected.iter()));
}

#[test]
fn dice_m_six_ones() {
    let options = TakeOption::one_face_all_combinations(1, 6);
    let expected = vec![
        take(&[1], 100),
        take(&[1, 1], 200),
        take(&[1, 1, 1], 1000),
        take(&[1, 1, 1, 1], 2000),
        take(&[1, 1, 1, 1, 1], 4000),
        take(&[1, 1, 1, 1, 1, 1], 8000),
    ];

    assert!(options.iter().eq(expected.iter()));
}

#[test]
fn dice_m_no_value_combinations() {
    let mut options = vec![];
    let expected: Vec<TakeOption> = vec![];

    for &dice_val in &[2, 3, 4, 6] {
        options.extend(TakeOption::one_face_all_combinations(dice_val, 1));
        options.extend(TakeOption::one_face_all_combinations(dice_val, 2));
    }

    assert!(options.iter().eq(expected.iter()));
}

#[test]
fn dice_m_triples() {
    let mut options = vec![];
    for dice_val in 1..=6 {
        options.extend(TakeOption::one_face_all_combinations(dice_val, 3));
    }

    let expected = vec![
        take(&[1], 100),
        take(&[1, 1], 200),
        take(&[1, 1, 1], 1000),
        take(&[2, 2, 2], 200),
        take(&[3, 3, 3], 300),
        take(&[4, 4, 4], 400),
        take(&[5], 50),
        take(&[5, 5], 100),
        take(&[5, 5, 5], 500),
        take(&[6, 6, 6], 600),
    ];

    assert!(options.iter().eq(expected.iter()));
}

#[test]
fn dice_m_quads() {
    let options = TakeOption::one_face_all_combinations(4, 4);
    let expected = vec![take(&[4, 4, 4], 400), take(&[4, 4, 4, 4], 800)];

    assert!(options.iter().eq(expected.iter()));
}
