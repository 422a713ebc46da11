use farkle::dice_m::{Dices, Hand, TakeOption};
use farkle::game_m::{
    ai_pick_take, by_value_descending, is_yes, read_answer, read_pick, GameAction, HumanPlayer,
    Turn, TurnResult, TurnStep,
};
use farkle::game_m::human_player::picked_take;
use std::collections::HashSet;

fn take(dices_used: [i32; 6], value: i32) -> TakeOption {
    TakeOption { dices_used, value }
}

#[test]
fn a_turn_starts_with_six_dice() {
    let turn = Turn::new();
    assert_eq!(turn.points(), 0);
    assert_eq!(turn.dices_to_roll(), 6);
}

#[test]
fn no_pick_ends_the_turn_with_nothing() {
    let mut turn = Turn::new();
    assert_eq!(turn.after_pick(Some(take([1, 0, 0, 0, 0, 0], 100))), TurnStep::Roll(5));
    assert_eq!(turn.after_pick(None), TurnStep::Done(TurnResult::Nothing));
    assert_eq!(turn.points(), 100);
    assert_eq!(turn.dices_to_roll(), 5);
}

#[test]
fn a_pick_leaves_fewer_dice() {
    let mut turn = Turn::new();
    assert_eq!(turn.after_pick(Some(take([0, 0, 0, 3, 0, 0], 400))), TurnStep::Roll(3));
    assert_eq!((turn.points(), turn.dices_to_roll()), (400, 3));
    assert_eq!(turn.after_pick(Some(take([0, 0, 0, 0, 1, 0], 50))), TurnStep::Ask);
    assert_eq!((turn.points(), turn.dices_to_roll()), (450, 2));
    assert_eq!(turn.after_answer(GameAction::Continue), TurnStep::Roll(2));
    assert_eq!(turn.after_pick(Some(take([1, 0, 0, 0, 0, 0], 100))), TurnStep::Ask);
    assert_eq!((turn.points(), turn.dices_to_roll()), (550, 1));
    assert_eq!(turn.after_answer(GameAction::Stop), TurnStep::Done(TurnResult::Value(550)));
}

#[test]
fn all_dice_taken_brings_six_new() {
    let mut turn = Turn::new();
    assert_eq!(turn.after_pick(Some(take([1, 1, 1, 1, 1, 1], 2000))), TurnStep::RollAnew);
    assert_eq!((turn.points(), turn.dices_to_roll()), (2000, 6));
    assert_eq!(turn.after_pick(Some(take([0, 2, 0, 0, 0, 0], 0))), TurnStep::Roll(4));
    assert_eq!(turn.after_pick(Some(take([0, 4, 0, 0, 0, 0], 400))), TurnStep::RollAnew);
    assert_eq!((turn.points(), turn.dices_to_roll()), (2400, 6));
}

#[test]
fn the_most_valuable_comes_first() {
    let takes = vec![
        take([1, 0, 0, 0, 0, 0], 100),
        take([0, 0, 0, 0, 1, 0], 50),
        take([0, 0, 0, 0, 0, 3], 600),
        take([2, 0, 0, 0, 0, 0], 200),
        take([0, 0, 0, 0, 2, 0], 100),
    ];
    let sorted = by_value_descending(&takes);
    let expected = vec![
        take([0, 0, 0, 0, 0, 3], 600),
        take([2, 0, 0, 0, 0, 0], 200),
        take([1, 0, 0, 0, 0, 0], 100),
        take([0, 0, 0, 0, 2, 0], 100),
        take([0, 0, 0, 0, 1, 0], 50),
    ];
    assert_eq!(sorted, expected);
    assert!(by_value_descending(&[]).is_empty());
}

#[test]
fn the_list_shows_all_takes_by_value() {
    let hand = Hand::from_dices(Dices::from([1, 1, 3, 4, 4, 5])).unwrap();
    let list = HumanPlayer::takes_to_list(&hand);
    let values: Vec<i32> = list.iter().map(|t| t.value).collect();
    assert_eq!(values, vec![250, 200, 150, 100, 50]);
    let listed: HashSet<TakeOption> = list.into_iter().collect();
    let all: HashSet<TakeOption> = hand.get_takes().cloned().collect();
    assert_eq!(listed, all);
}

#[test]
fn the_list_shows_only_what_takes_every_die() {
    let hand = Hand::from_dices(Dices::from([1, 1, 5, 6, 6, 6])).unwrap();
    let list = HumanPlayer::takes_to_list(&hand);
    assert_eq!(list, vec![take([2, 0, 0, 0, 1, 3], 850)]);
    let hand = Hand::from_dices(Dices::from([2, 2, 3, 4, 6, 6])).unwrap();
    assert!(HumanPlayer::takes_to_list(&hand).is_empty());
}

#[test]
fn a_pick_is_counted_from_one() {
    let list = vec![take([0, 0, 0, 0, 0, 3], 600), take([1, 0, 0, 0, 0, 0], 100)];
    assert_eq!(picked_take(&list, 1), Some(list[0]));
    assert_eq!(picked_take(&list, 2), Some(list[1]));
    assert_eq!(picked_take(&list, 3), None);
    assert_eq!(picked_take(&list, 0), None);
    assert_eq!(picked_take(&list, -1), None);
    assert_eq!(picked_take(&Vec::new(), 1), None);
}

#[test]
fn a_picked_take_is_booked() {
    let list = vec![take([0, 0, 0, 0, 0, 3], 600), take([1, 0, 0, 0, 0, 0], 100)];
    let mut player = HumanPlayer::new();
    assert_eq!((player.points(), player.dices_taken()), (0, 0));
    assert_eq!(player.take_picked(&list, 1), Some(list[0]));
    assert_eq!((player.points(), player.dices_taken()), (600, 3));
    assert!(!player.must_be_asked());
    assert_eq!(player.take_picked(&list, 7), None);
    assert_eq!((player.points(), player.dices_taken()), (600, 3));
    assert_eq!(player.take_picked(&list, 2), Some(list[1]));
    assert_eq!((player.points(), player.dices_taken()), (700, 4));
    assert!(player.must_be_asked());
    assert_eq!(player.continue_or_stop(false), GameAction::Continue);
    assert_eq!(player.continue_or_stop(true), GameAction::Stop);
    player.new_dices();
    assert_eq!((player.points(), player.dices_taken()), (700, 0));
    assert!(!player.must_be_asked());
    assert_eq!(player.continue_or_stop(true), GameAction::Continue);
    player.new_round();
    assert_eq!((player.points(), player.dices_taken()), (0, 0));
}

#[test]
fn asked_with_one_or_two_dice_left() {
    let one = vec![take([1, 0, 0, 0, 0, 0], 100)];
    let mut player = HumanPlayer::new();
    let mut asked = Vec::new();
    for _ in 0..6 {
        asked.push(player.must_be_asked());
        player.take_picked(&one, 1);
    }
    asked.push(player.must_be_asked());
    assert_eq!(asked, vec![false, false, false, false, true, true, false]);
}

#[test]
fn the_machine_picks_the_first_take() {
    let hand = Hand::from_dices(Dices::from([1, 1, 3, 4, 4, 5])).unwrap();
    assert_eq!(ai_pick_take(&hand), hand.get_takes().next().cloned());
    assert_eq!(ai_pick_take(&hand), Some(take([1, 0, 0, 0, 0, 0], 100)));
    assert_eq!(hand.takes_as_slice().len(), 5);
    let hand = Hand::from_dices(Dices::from([2, 2, 3, 4, 6, 6])).unwrap();
    assert_eq!(ai_pick_take(&hand), None);
}

#[test]
fn only_y_means_yes() {
    assert!(is_yes("y"));
    assert!(!is_yes(""));
    assert!(!is_yes("n"));
    assert!(!is_yes("Y"));
    assert!(!is_yes("yy"));
    assert!(!is_yes(" y"));
}

#[test]
fn an_answer_is_trimmed() {
    assert!(read_answer("y"));
    assert!(read_answer("y\n"));
    assert!(read_answer("  y \r\n"));
    assert!(!read_answer("yes\n"));
    assert!(!read_answer("n\n"));
    assert!(!read_answer("\n"));
}

#[test]
fn a_pick_is_a_trimmed_number() {
    assert_eq!(read_pick("3"), Some(3));
    assert_eq!(read_pick(" 12 \n"), Some(12));
    assert_eq!(read_pick("-4\n"), Some(-4));
    assert_eq!(read_pick("+4\n"), Some(4));
    assert_eq!(read_pick("three\n"), None);
    assert_eq!(read_pick("\n"), None);
    assert_eq!(read_pick("1 2\n"), None);
    assert_eq!(read_pick("99999999999\n"), None);
}
