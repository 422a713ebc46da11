use farkle::game_m::{
    GameAction, GameState, GameStatus, HumanPlayer, MatchResult, PlayerType, TurnResult,
};

#[test]
fn a_new_state_is_empty() {
    let state = GameState::new();
    assert_eq!(state.round(), 0);
    assert_eq!(state.players_count(), 0);
    assert_eq!(state.playing(), 0);
    assert_eq!(state.score_goal(), 0);
    assert!(state.player_scores().is_empty());
    assert!(!state.bad_state());
    let state = GameState::with_goal(750);
    assert_eq!(state.score_goal(), 750);
    assert_eq!(state.players_count(), 0);
    assert!(state.player_scores().is_empty());
}

#[test]
fn nobody_wins_at_the_start() {
    let mut state = GameState::new();
    assert_eq!(state.game_status(), GameStatus::NobodyWinning);
    state.add_player();
    state.add_player();
    assert_eq!(state.players_count(), 2);
    assert_eq!(state.player_scores().to_vec(), vec![0, 0]);
    assert_eq!(state.game_status(), GameStatus::NobodyWinning);
}

#[test]
fn the_goal_must_be_passed() {
    let mut state = GameState::with_goal(500);
    state.add_player();
    state.add_player();
    state.update_player_turn(TurnResult::Value(500));
    assert_eq!(state.game_status(), GameStatus::NobodyWinning);
    state.update_player_turn(TurnResult::Value(501));
    assert_eq!(state.game_status(), GameStatus::Winning(1));
    assert_eq!(state.player_scores().to_vec(), vec![500, 501]);
}

#[test]
fn turns_go_round() {
    let mut state = GameState::with_goal(1000);
    state.add_player();
    state.add_player();
    state.add_player();
    state.update_player_turn(TurnResult::Value(300));
    assert_eq!((state.playing(), state.round()), (1, 0));
    state.update_player_turn(TurnResult::Nothing);
    assert_eq!((state.playing(), state.round()), (2, 0));
    state.update_player_turn(TurnResult::Value(200));
    assert_eq!((state.playing(), state.round()), (0, 1));
    state.update_player_turn(TurnResult::Value(800));
    assert_eq!((state.playing(), state.round()), (1, 1));
    assert_eq!(state.player_scores().to_vec(), vec![1100, 0, 200]);
    assert_eq!(state.game_status(), GameStatus::Winning(0));
}

#[test]
fn a_single_player_plays_every_round() {
    let mut state = GameState::with_goal(10);
    state.add_player();
    state.update_player_turn(TurnResult::Value(1));
    state.update_player_turn(TurnResult::Nothing);
    state.update_player_turn(TurnResult::Value(2));
    assert_eq!((state.playing(), state.round()), (0, 3));
    assert_eq!(state.player_scores().to_vec(), vec![3]);
}

#[test]
fn points_go_to_the_player_in_turn() {
    let mut state = GameState::with_goal(100);
    state.add_player();
    state.add_player();
    state.add_score_to_current(60);
    assert_eq!(state.game_status(), GameStatus::NobodyWinning);
    state.add_score_to_current(60);
    assert_eq!(state.player_scores().to_vec(), vec![120, 0]);
    assert_eq!(state.playing(), 0);
    assert_eq!(state.game_status(), GameStatus::Winning(0));
}

#[test]
fn a_new_goal_changes_the_status() {
    let mut state = GameState::new();
    state.add_player();
    state.update_player_turn(TurnResult::Value(50));
    assert_eq!(state.game_status(), GameStatus::Winning(0));
    state.set_goal(50);
    assert_eq!(state.score_goal(), 50);
    assert_eq!(state.game_status(), GameStatus::NobodyWinning);
    state.set_goal(49);
    assert_eq!(state.game_status(), GameStatus::Winning(0));
    assert_eq!(state.player_scores().to_vec(), vec![50]);
}

#[test]
fn a_match_ends_on_a_win_or_an_error() {
    assert_eq!(MatchResult::of_status(GameStatus::Won(3)), Some(MatchResult::Won(3)));
    assert_eq!(
        MatchResult::of_status(GameStatus::Error("In bad state")),
        Some(MatchResult::Error("In bad state"))
    );
    assert_eq!(MatchResult::of_status(GameStatus::Winning(3)), None);
    assert_eq!(MatchResult::of_status(GameStatus::NobodyWinning), None);
}

#[test]
fn the_small_types_compare() {
    assert_eq!(GameAction::Stop, GameAction::Stop);
    assert_ne!(GameAction::Stop, GameAction::Continue);
    assert_ne!(PlayerType::AI, PlayerType::Human);
    let mut player = HumanPlayer::new();
    player.reset();
    assert_eq!(format!("{:?}", player), format!("{:?}", HumanPlayer::new()));
}

#[test]
fn the_machine_always_banks() {
    assert_eq!(PlayerType::AI.continue_or_stop(false), GameAction::Stop);
    assert_eq!(PlayerType::AI.continue_or_stop(true), GameAction::Stop);
    assert_eq!(PlayerType::Human.continue_or_stop(false), GameAction::Continue);
    assert_eq!(PlayerType::Human.continue_or_stop(true), GameAction::Stop);
}
