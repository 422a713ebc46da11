//! The state of a game between turns.

use vstd::prelude::*;

verus! {

/// How a game stands.
#[derive(Debug, Clone, Copy, PartialEq, Eq)]
pub enum GameStatus {
    /// The player with this index is above the goal.
    Winning(u16),
    /// The player with this index has won.
    Won(u16),
    /// No player is above the goal.
    NobodyWinning,
    /// The state is bad, for the reason given.
    Error(&'static str),
}

/// What a turn brought its player.
#[derive(Debug, Clone, Copy, PartialEq, Eq)]
pub enum TurnResult {
    /// The turn could not be played, for the reason given.
    Error(&'static str),
    /// The player had nothing to take.
    Nothing,
    /// The player banked this many points.
    Value(u32),
}

/// How a match ended.
#[derive(Debug, Clone, Copy, PartialEq, Eq)]
pub enum MatchResult {
    /// The player with this index has won.
    Won(u16),
    /// The match broke off, for the reason given.
    Error(&'static str),
}

impl MatchResult {
    /// How a match ends on a status, if it ends: with the winner once
    /// somebody has won, with the error in a bad state, and not while
    /// players are only ahead or nobody is.
    pub fn of_status(status: GameStatus) -> (result: Option<MatchResult>)
        ensures
            status matches GameStatus::Won(i) ==> result == Some(MatchResult::Won(i)),
            status matches GameStatus::Error(e) ==> result == Some(MatchResult::Error(e)),
            status is Winning || status is NobodyWinning ==> result is None,
    {
        match status {
            GameStatus::Winning(_) => None,
            GameStatus::Won(i) => Some(MatchResult::Won(i)),
            GameStatus::NobodyWinning => None,
            GameStatus::Error(e) => Some(MatchResult::Error(e)),
        }
    }
}

/// The state of a game as numbers.
pub struct GameStateView {
    pub round: int,
    pub players_count: int,
    pub playing: int,
    pub score_goal: int,
    pub player_scores: Seq<int>,
    pub bad_state: bool,
}

impl GameStateView {
    /// The state after the player whose turn it is has banked `score`.
    pub open spec fn credited(self, score: int) -> GameStateView {
        GameStateView {
            player_scores: self.player_scores.update(
                self.playing,
                self.player_scores[self.playing] + score,
            ),
            ..self
        }
    }

    /// The state after the turn has passed to the next player: after the
    /// last player a new round begins with the first.
    pub open spec fn passed_on(self) -> GameStateView {
        if self.playing == self.players_count - 1 {
            GameStateView { round: self.round + 1, playing: 0, ..self }
        } else {
            GameStateView { playing: self.playing + 1, ..self }
        }
    }

    /// The player with index `i` is above the goal.
    pub open spec fn above_goal(self, i: int) -> bool {
        0 <= i < self.player_scores.len() && self.player_scores[i] > self.score_goal
    }
}

/// The state of a game between turns: the round, whose turn it is, the
/// goal, and the points of each player.
#[derive(Debug)]
pub struct GameState {
    round: u16,
    players_count: u16,
    playing: u16,
    score_goal: u32,
    player_scores: Vec<u32>,
    bad_state: bool,
}

impl View for GameState {
    type V = GameStateView;

    closed spec fn view(&self) -> GameStateView {
        GameStateView {
            round: self.round as int,
            players_count: self.players_count as int,
            playing: self.playing as int,
            score_goal: self.score_goal as int,
            player_scores: Seq::new(self.player_scores@.len(), |i: int| self.player_scores@[i] as int),
            bad_state: self.bad_state,
        }
    }
}

impl GameState {
    /// Every player has a score, and the turn is with one of the players
    /// (with the first while there is none).
    pub open spec fn wf(&self) -> bool {
        &&& self@.players_count == self@.player_scores.len()
        &&& 0 <= self@.playing
        &&& self@.playing < self@.players_count || self@.playing == 0
    }

    /// A game without players, in its first round, with the goal zero.
    pub fn new() -> (state: Self)
        ensures
            state.wf(),
            state@ == (GameStateView {
                round: 0,
                players_count: 0,
                playing: 0,
                score_goal: 0,
                player_scores: Seq::empty(),
                bad_state: false,
            }),
    {
        let state = GameState {
            round: 0,
            players_count: 0,
            playing: 0,
            score_goal: 0,
            player_scores: Vec::new(),
            bad_state: false,
        };
        assert(state@.player_scores =~= Seq::empty());
        state
    }

    /// A game without players, in its first round, with the given goal.
    pub fn with_goal(score_goal: u32) -> (state: Self)
        ensures
            state.wf(),
            state@ == (GameStateView {
                round: 0,
                players_count: 0,
                playing: 0,
                score_goal: score_goal as int,
                player_scores: Seq::empty(),
                bad_state: false,
            }),
    {
        let state = GameState {
            round: 0,
            players_count: 0,
            playing: 0,
            score_goal,
            player_scores: Vec::new(),
            bad_state: false,
        };
        assert(state@.player_scores =~= Seq::empty());
        state
    }

    /// The rounds played to the end.
    pub fn round(&self) -> (round: u16)
        ensures
            round == self@.round,
    {
        self.round
    }

    /// The number of players.
    pub fn players_count(&self) -> (count: u16)
        ensures
            count == self@.players_count,
    {
        self.players_count
    }

    /// The index of the player whose turn it is.
    pub fn playing(&self) -> (index: u16)
        ensures
            index == self@.playing,
    {
        self.playing
    }

    /// The points a player must pass to be ahead.
    pub fn score_goal(&self) -> (goal: u32)
        ensures
            goal == self@.score_goal,
    {
        self.score_goal
    }

    /// The points of each player.
    pub fn player_scores(&self) -> (scores: &[u32])
        ensures
            scores@.len() == self@.player_scores.len(),
            forall|i: int| 0 <= i < scores@.len() ==> #[trigger] scores@[i] == self@.player_scores[i],
    {
        self.player_scores.as_slice()
    }

    /// Whether the state is marked as bad.
    pub fn bad_state(&self) -> (bad: bool)
        ensures
            bad == self@.bad_state,
    {
        self.bad_state
    }

    /// Sets the goal and leaves all else as it is.
    pub fn set_goal(&mut self, score_goal: u32)
        ensures
            final(self)@ == (GameStateView { score_goal: score_goal as int, ..old(self)@ }),
    {
        self.score_goal = score_goal;
    }

    /// A new player joins, with no points.
    pub fn add_player(&mut self)
        requires
            old(self).wf(),
            old(self)@.players_count < u16::MAX,
        ensures
            final(self).wf(),
            final(self)@ == (GameStateView {
                players_count: old(self)@.players_count + 1,
                player_scores: old(self)@.player_scores.push(0),
                ..old(self)@
            }),
    {
        self.players_count += 1;
        self.player_scores.push(0);
        assert(self@.player_scores =~= old(self)@.player_scores.push(0));
    }

    /// Adds `score` to the points of the player whose turn it is.
    pub fn add_score_to_current(&mut self, score: u32)
        requires
            old(self).wf(),
            old(self)@.playing < old(self)@.players_count,
            old(self)@.player_scores[old(self)@.playing] + score <= u32::MAX,
        ensures
            final(self).wf(),
            final(self)@ == old(self)@.credited(score as int),
    {
        let current_index = self.playing as usize;
        let sum = self.player_scores[current_index] + score;
        self.player_scores[current_index] = sum;
        assert(self@.player_scores =~= old(self)@.credited(score as int).player_scores);
    }

    /// Books what the turn brought and passes the turn on.
    pub fn update_player_turn(&mut self, turn: TurnResult)
        requires
            old(self).wf(),
            !(turn is Error),
            old(self)@.players_count >= 1,
            turn matches TurnResult::Value(v) ==> old(self)@.player_scores[old(self)@.playing] + v
                <= u32::MAX,
            old(self)@.playing == old(self)@.players_count - 1 ==> old(self)@.round < u16::MAX,
        ensures
            final(self).wf(),
            turn matches TurnResult::Value(v) ==> final(self)@ == old(self)@.credited(
                v as int,
            ).passed_on(),
            turn is Nothing ==> final(self)@ == old(self)@.passed_on(),
    {
        match turn {
            TurnResult::Value(v) => {
                self.add_score_to_current(v);
            },
            _ => {},
        };
        self.playing = if self.playing == self.players_count - 1 {
            self.round += 1;
            0
        } else {
            self.playing + 1
        };
    }

    /// How the game stands: an error in a bad state, else who is above the
    /// goal.
    pub fn game_status(&self) -> (status: GameStatus)
        requires
            self.wf(),
            !self@.bad_state ==> forall|i: int, j: int|
                self@.above_goal(i) && self@.above_goal(j) ==> i == j,
        ensures
            self@.bad_state ==> (status matches GameStatus::Error(message) && message@
                == "In bad state"@),
            !self@.bad_state && (forall|i: int| !self@.above_goal(i)) ==> status
                == GameStatus::NobodyWinning,
            !self@.bad_state && (exists|i: int| self@.above_goal(i)) ==> (
            status matches GameStatus::Winning(i) && self@.above_goal(i as int)),
    {
        let mut winner: Option<usize> = None;
        let mut i: usize = 0;
        while i < self.player_scores.len()
            invariant
                self.wf(),
                i <= self.player_scores@.len(),
                winner matches Some(w) ==> w < i && self@.above_goal(w as int),
                winner is None ==> forall|k: int| 0 <= k < i ==> !self@.above_goal(k),
            decreases self.player_scores@.len() - i,
        {
            if self.player_scores[i] > self.score_goal {
                winner = Some(i);
            }
            i += 1;
        }
        if self.bad_state {
            return GameStatus::Error("In bad state");
        }
        match winner {
            None => GameStatus::NobodyWinning,
            Some(w) => GameStatus::Winning(w as u16),
        }
    }
}

} // verus!
