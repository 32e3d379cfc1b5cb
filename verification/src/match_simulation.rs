//! Records of finished matches.

use crate::calendar::{utc_now, GameDate};
use crate::identity::{fresh_id, is_random_uuid};
use vstd::prelude::*;

verus! {

/// The kind of competition a match belongs to.
#[derive(Debug, Clone, Copy, PartialEq, Eq, Structural)]
pub enum MatchType {
    Regular,
    Playoff,
    Kickoff,
    Masters,
    Champions,
}

/// The record of a finished match. A match with level scores has no winner.
#[derive(Debug, Clone)]
pub struct MatchResult {
    pub id: u128,
    pub date: GameDate,
    pub team1_id: u128,
    pub team2_id: u128,
    pub team1_score: u8,
    pub team2_score: u8,
    pub map: String,
    pub winner_id: Option<u128>,
    pub match_type: MatchType,
}

/// What a `MatchResult` holds, as plain values.
pub struct MatchResultView {
    pub id: u128,
    pub date: GameDate,
    pub team1_id: u128,
    pub team2_id: u128,
    pub team1_score: u8,
    pub team2_score: u8,
    pub map: Seq<char>,
    pub winner_id: Option<u128>,
    pub match_type: MatchType,
}

impl View for MatchResult {
    type V = MatchResultView;

    open spec fn view(&self) -> MatchResultView {
        MatchResultView {
            id: self.id,
            date: self.date,
            team1_id: self.team1_id,
            team2_id: self.team2_id,
            team1_score: self.team1_score,
            team2_score: self.team2_score,
            map: self.map@,
            winner_id: self.winner_id,
            match_type: self.match_type,
        }
    }
}

/// The winner of a match: the side with the higher score, and nobody when
/// the scores are level.
pub open spec fn winner_of(
    team1_id: u128,
    team2_id: u128,
    team1_score: u8,
    team2_score: u8,
) -> Option<u128> {
    if team1_score > team2_score {
        Some(team1_id)
    } else if team2_score > team1_score {
        Some(team2_id)
    } else {
        None
    }
}

impl MatchResult {
    /// Records a match that has just ended: the winner follows from the
    /// scores, the record gets a random id and the present moment as its date.
    pub fn new(
        team1_id: u128,
        team2_id: u128,
        team1_score: u8,
        team2_score: u8,
        map: String,
        match_type: MatchType,
    ) -> (result: Self)
        ensures
            result@ == (MatchResultView {
                id: result.id,
                date: result.date,
                team1_id,
                team2_id,
                team1_score,
                team2_score,
                map: map@,
                winner_id: winner_of(team1_id, team2_id, team1_score, team2_score),
                match_type,
            }),
            is_random_uuid(result.id),
            result.date.is_valid(),
    {
        let winner_id = MatchResult::decide_winner(team1_id, team2_id, team1_score, team2_score);
        MatchResult {
            id: fresh_id(),
            date: utc_now(),
            team1_id,
            team2_id,
            team1_score,
            team2_score,
            map,
            winner_id,
            match_type,
        }
    }

    /// The side with the higher score, and nobody when the scores are level.
    pub fn decide_winner(
        team1_id: u128,
        team2_id: u128,
        team1_score: u8,
        team2_score: u8,
    ) -> (winner: Option<u128>)
        ensures
            winner == winner_of(team1_id, team2_id, team1_score, team2_score),
    {
        if team1_score > team2_score {
            Some(team1_id)
        } else if team2_score > team1_score {
            Some(team2_id)
        } else {
            None
        }
    }
}

} // verus!
