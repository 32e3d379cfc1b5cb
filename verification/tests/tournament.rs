use valorant_manager::tournament::rank_by_points;
use valorant_manager::{
    ChampionshipStanding, GameDate, Match, MatchResult, MatchType, TournamentState, VCTEvent,
};

fn row(team_id: u128, points: u32) -> ChampionshipStanding {
    ChampionshipStanding { team_id, points, wins: 0, losses: 0 }
}

fn order(state: &TournamentState) -> Vec<(u128, u32)> {
    state.championship_standings.iter().map(|s| (s.team_id, s.points)).collect()
}

fn state_at(event: VCTEvent, standings: &[(u128, u32)]) -> TournamentState {
    let mut state = TournamentState::new();
    state.current_event = event;
    state.championship_standings = standings.iter().map(|&(id, points)| row(id, points)).collect();
    state
}

#[test]
fn new_season_opens_with_the_kickoff() {
    let state = TournamentState::new();
    assert_eq!(state.current_event, VCTEvent::Kickoff);
    assert_eq!(state.current_week, 1);
    assert!(state.events_completed.is_empty());
    assert!(state.qualified_teams.is_empty());
    assert!(state.championship_standings.is_empty());
    assert_eq!(state.get_current_event_name(), "VCT Kickoff");
}

#[test]
fn kickoff_ends_when_the_week_count_reaches_four() {
    let mut state = TournamentState::new();
    state.advance_week();
    assert_eq!((state.current_event, state.current_week), (VCTEvent::Kickoff, 2));
    state.advance_week();
    assert_eq!((state.current_event, state.current_week), (VCTEvent::Kickoff, 3));
    assert!(state.events_completed.is_empty());
    state.advance_week();
    assert_eq!((state.current_event, state.current_week), (VCTEvent::MastersBangkok, 1));
    assert_eq!(state.events_completed, vec![VCTEvent::Kickoff]);
}

#[test]
fn fourth_week_from_the_start_ends_the_first_masters() {
    let mut state = TournamentState::new();
    for _ in 0..4 {
        state.advance_week();
    }
    assert_eq!((state.current_event, state.current_week), (VCTEvent::Stage1, 1));
    assert_eq!(state.events_completed, vec![VCTEvent::Kickoff, VCTEvent::MastersBangkok]);
    let kickoffs = state.events_completed.iter().filter(|e| **e == VCTEvent::Kickoff).count();
    assert_eq!(kickoffs, 1);
}

#[test]
fn season_runs_through_its_six_events() {
    let mut state = TournamentState::new();
    let mut changes = Vec::new();
    for week in 1..=30u32 {
        let before = state.current_event;
        state.advance_week();
        if state.current_event != before {
            changes.push((week, state.current_event));
            assert_eq!(state.current_week, 1);
        }
    }
    assert_eq!(
        changes,
        vec![
            (3, VCTEvent::MastersBangkok),
            (4, VCTEvent::Stage1),
            (11, VCTEvent::MastersToronto),
            (12, VCTEvent::Stage2),
            (19, VCTEvent::ChampionsParis),
        ]
    );
    assert_eq!(
        state.events_completed,
        vec![
            VCTEvent::Kickoff,
            VCTEvent::MastersBangkok,
            VCTEvent::Stage1,
            VCTEvent::MastersToronto,
            VCTEvent::Stage2,
        ]
    );
    assert_eq!(state.current_event, VCTEvent::ChampionsParis);
    assert_eq!(state.current_week, 12);
}

#[test]
fn last_event_never_ends() {
    let mut state = state_at(VCTEvent::ChampionsParis, &[]);
    for _ in 0..200 {
        state.advance_week();
    }
    assert_eq!(state.current_event, VCTEvent::ChampionsParis);
    assert_eq!(state.current_week, 201);
    assert!(state.events_completed.is_empty());
}

#[test]
fn an_event_past_its_closing_week_runs_on() {
    let mut state = state_at(VCTEvent::Kickoff, &[]);
    state.current_week = 4;
    state.advance_week();
    assert_eq!((state.current_event, state.current_week), (VCTEvent::Kickoff, 5));
    assert!(state.events_completed.is_empty());
}

#[test]
fn advance_week_leaves_standings_alone() {
    let mut state = state_at(VCTEvent::Kickoff, &[(1, 5), (2, 3)]);
    state.qualified_teams = vec![9];
    for _ in 0..3 {
        state.advance_week();
    }
    assert_eq!(order(&state), vec![(1, 5), (2, 3)]);
    assert_eq!(state.qualified_teams, vec![9]);
}

#[test]
fn event_names_are_the_shown_ones() {
    let names = [
        (VCTEvent::Kickoff, "VCT Kickoff"),
        (VCTEvent::MastersBangkok, "Masters Bangkok"),
        (VCTEvent::Stage1, "VCT Stage 1"),
        (VCTEvent::MastersToronto, "Masters Toronto"),
        (VCTEvent::Stage2, "VCT Stage 2"),
        (VCTEvent::ChampionsParis, "Champions Paris"),
    ];
    for (event, name) in names {
        assert_eq!(state_at(event, &[]).get_current_event_name(), name);
    }
}

#[test]
fn points_for_a_new_team_open_a_row() {
    let mut state = TournamentState::new();
    state.add_championship_points(7, 3);
    assert_eq!(state.championship_standings.len(), 1);
    let standing = &state.championship_standings[0];
    assert_eq!((standing.team_id, standing.points, standing.wins, standing.losses), (7, 3, 0, 0));
}

#[test]
fn points_for_a_known_team_add_up() {
    let mut state = state_at(VCTEvent::Kickoff, &[(1, 5), (2, 3)]);
    state.championship_standings[1].wins = 4;
    state.championship_standings[1].losses = 2;
    state.add_championship_points(2, 1);
    assert_eq!(order(&state), vec![(1, 5), (2, 4)]);
    assert_eq!(state.championship_standings[1].wins, 4);
    assert_eq!(state.championship_standings[1].losses, 2);
}

#[test]
fn standings_are_sorted_by_points_after_every_addition() {
    let mut state = TournamentState::new();
    let bookings = [(1u128, 3u32), (2, 5), (3, 1), (1, 4), (4, 5), (3, 9), (5, 0), (2, 2)];
    for (team, points) in bookings {
        state.add_championship_points(team, points);
        let sorted = state.championship_standings.windows(2).all(|w| w[0].points >= w[1].points);
        assert!(sorted, "after {} for {}: {:?}", points, team, order(&state));
    }
    assert_eq!(order(&state), vec![(3, 10), (1, 7), (2, 7), (4, 5), (5, 0)]);
}

#[test]
fn a_tie_keeps_the_earlier_order() {
    let mut state = TournamentState::new();
    state.add_championship_points(1, 5);
    state.add_championship_points(2, 5);
    state.add_championship_points(3, 5);
    assert_eq!(order(&state), vec![(1, 5), (2, 5), (3, 5)]);
    // Team 3 moves ahead, then team 1 draws level with it and stays behind it.
    state.add_championship_points(3, 2);
    assert_eq!(order(&state), vec![(3, 7), (1, 5), (2, 5)]);
    state.add_championship_points(1, 2);
    assert_eq!(order(&state), vec![(3, 7), (1, 7), (2, 5)]);
    // Team 2 draws level from behind and comes last among the equals.
    state.add_championship_points(2, 2);
    assert_eq!(order(&state), vec![(3, 7), (1, 7), (2, 7)]);
    state.add_championship_points(9, 7);
    assert_eq!(order(&state), vec![(3, 7), (1, 7), (2, 7), (9, 7)]);
}

#[test]
fn adding_no_points_still_sorts() {
    let mut state = state_at(VCTEvent::Kickoff, &[(1, 1), (2, 9), (3, 1), (4, 9)]);
    state.add_championship_points(3, 0);
    assert_eq!(order(&state), vec![(2, 9), (4, 9), (1, 1), (3, 1)]);
}

#[test]
fn points_go_to_the_first_row_of_a_team() {
    let mut state = state_at(VCTEvent::Kickoff, &[(1, 9), (2, 4), (1, 2)]);
    state.add_championship_points(1, 1);
    assert_eq!(order(&state), vec![(1, 10), (2, 4), (1, 2)]);
}

#[test]
fn ranking_is_stable_and_complete() {
    let rows: Vec<ChampionshipStanding> =
        [(1, 2), (2, 7), (3, 2), (4, 7), (5, 0), (6, 2), (7, 9)].map(|(id, p)| row(id, p)).to_vec();
    let ranking: Vec<(u128, u32)> =
        rank_by_points(&rows).iter().map(|s| (s.team_id, s.points)).collect();
    assert_eq!(ranking, vec![(7, 9), (2, 7), (4, 7), (1, 2), (3, 2), (6, 2), (5, 0)]);
    assert!(rank_by_points(&Vec::new()).is_empty());
}

#[test]
fn a_win_in_a_stage_is_worth_a_point() {
    for event in [VCTEvent::Stage1, VCTEvent::Stage2] {
        let mut state = state_at(event, &[(1, 5), (2, 3)]);
        state.record_match_result(2, true);
        let standing = &state.championship_standings[1];
        assert_eq!((standing.points, standing.wins, standing.losses), (4, 1, 0));
        assert_eq!(order(&state), vec![(1, 5), (2, 4)]);
    }
}

#[test]
fn a_win_elsewhere_is_worth_no_point() {
    for event in [
        VCTEvent::Kickoff,
        VCTEvent::MastersBangkok,
        VCTEvent::MastersToronto,
        VCTEvent::ChampionsParis,
    ] {
        let mut state = state_at(event, &[(1, 5), (2, 3)]);
        state.record_match_result(2, true);
        let standing = &state.championship_standings[1];
        assert_eq!((standing.points, standing.wins, standing.losses), (3, 1, 0));
    }
}

#[test]
fn a_loss_is_counted_and_costs_nothing() {
    let mut state = state_at(VCTEvent::Stage1, &[(1, 5), (2, 3)]);
    state.record_match_result(1, false);
    let standing = &state.championship_standings[0];
    assert_eq!((standing.points, standing.wins, standing.losses), (5, 0, 1));
}

#[test]
fn a_match_of_an_unranked_team_is_not_booked() {
    let mut state = state_at(VCTEvent::Stage1, &[(1, 5)]);
    state.record_match_result(2, true);
    assert_eq!(order(&state), vec![(1, 5)]);
    assert_eq!(state.championship_standings[0].wins, 0);
}

#[test]
fn a_stage_win_moves_the_winner_up() {
    let mut state = TournamentState::new();
    state.add_championship_points(1, 5);
    state.add_championship_points(2, 5);
    state.current_event = VCTEvent::Stage1;
    state.record_match_result(2, true);
    assert_eq!(order(&state), vec![(2, 6), (1, 5)]);
    let winner = &state.championship_standings[0];
    assert_eq!((winner.wins, winner.losses), (1, 0));
    let other = &state.championship_standings[1];
    assert_eq!((other.wins, other.losses), (0, 0));
}

#[test]
fn a_stage_win_that_draws_level_stays_behind_the_equals() {
    let mut state = state_at(VCTEvent::Stage2, &[(1, 7), (2, 6), (3, 6), (4, 5)]);
    state.record_match_result(4, true);
    assert_eq!(order(&state), vec![(1, 7), (2, 6), (3, 6), (4, 6)]);
    state.record_match_result(3, true);
    assert_eq!(order(&state), vec![(1, 7), (3, 7), (2, 6), (4, 6)]);
    state.record_match_result(4, true);
    assert_eq!(order(&state), vec![(1, 7), (3, 7), (4, 7), (2, 6)]);
}

#[test]
fn a_stage_win_puts_all_standings_in_order() {
    let mut state = state_at(VCTEvent::Stage1, &[(1, 1), (2, 9), (3, 1), (4, 9)]);
    state.record_match_result(3, true);
    assert_eq!(order(&state), vec![(2, 9), (4, 9), (3, 2), (1, 1)]);
}

#[test]
fn a_win_without_a_point_leaves_the_order() {
    let mut state = state_at(VCTEvent::Kickoff, &[(1, 1), (2, 9), (3, 1)]);
    state.record_match_result(3, true);
    assert_eq!(order(&state), vec![(1, 1), (2, 9), (3, 1)]);
    assert_eq!(state.championship_standings[2].wins, 1);
}

#[test]
fn a_loss_leaves_the_order() {
    let mut state = state_at(VCTEvent::Stage1, &[(1, 1), (2, 9), (3, 1)]);
    state.record_match_result(1, false);
    assert_eq!(order(&state), vec![(1, 1), (2, 9), (3, 1)]);
    assert_eq!(state.championship_standings[0].losses, 1);
}

#[test]
fn a_stage_win_of_an_unranked_team_leaves_the_order() {
    let mut state = state_at(VCTEvent::Stage1, &[(1, 1), (2, 9)]);
    state.record_match_result(7, true);
    assert_eq!(order(&state), vec![(1, 1), (2, 9)]);
}

#[test]
fn the_week_count_stops_at_255() {
    let mut state = state_at(VCTEvent::ChampionsParis, &[(1, 5)]);
    state.current_week = 254;
    state.advance_week();
    assert_eq!(state.current_week, 255);
    for _ in 0..10 {
        state.advance_week();
        assert_eq!(state.current_week, 255);
        assert_eq!(state.current_event, VCTEvent::ChampionsParis);
        assert!(state.events_completed.is_empty());
    }
    assert_eq!(order(&state), vec![(1, 5)]);
}

#[test]
fn an_overdue_event_runs_on_to_week_255() {
    let mut state = state_at(VCTEvent::Stage1, &[]);
    state.current_week = 8;
    for _ in 0..300 {
        state.advance_week();
    }
    assert_eq!((state.current_event, state.current_week), (VCTEvent::Stage1, 255));
    assert!(state.events_completed.is_empty());
}

#[test]
fn team_standing_is_the_first_row_of_the_team() {
    let state = state_at(VCTEvent::Kickoff, &[(1, 9), (2, 4), (1, 2)]);
    let found = state.get_team_standing(1).map(|s| s.points);
    assert_eq!(found, Some(9));
    assert_eq!(state.get_team_standing(2).map(|s| s.points), Some(4));
    assert!(state.get_team_standing(3).is_none());
    assert_eq!(state.standing_index(1), 0);
    assert_eq!(state.standing_index(2), 1);
    assert_eq!(state.standing_index(3), 3);
}

#[test]
fn top_two_of_the_kickoff_qualify_for_the_masters() {
    let state = state_at(VCTEvent::Kickoff, &[(1, 9), (2, 7), (3, 5), (4, 1)]);
    assert!(state.is_qualified_for_masters(1));
    assert!(state.is_qualified_for_masters(2));
    assert!(!state.is_qualified_for_masters(3));
    assert!(!state.is_qualified_for_masters(4));
    assert!(!state.is_qualified_for_masters(5));
}

#[test]
fn top_three_of_stage_one_qualify_for_the_masters() {
    let state = state_at(VCTEvent::Stage1, &[(1, 9), (2, 7), (3, 5), (4, 1)]);
    assert!(state.is_qualified_for_masters(1));
    assert!(state.is_qualified_for_masters(2));
    assert!(state.is_qualified_for_masters(3));
    assert!(!state.is_qualified_for_masters(4));
}

#[test]
fn nobody_qualifies_for_the_masters_during_other_events() {
    for event in [
        VCTEvent::MastersBangkok,
        VCTEvent::MastersToronto,
        VCTEvent::Stage2,
        VCTEvent::ChampionsParis,
    ] {
        let state = state_at(event, &[(1, 9), (2, 7)]);
        assert!(!state.is_qualified_for_masters(1));
        assert!(!state.is_qualified_for_masters(2));
    }
}

#[test]
fn short_standings_qualify_whom_they_hold() {
    let state = state_at(VCTEvent::Kickoff, &[(1, 9)]);
    assert!(state.is_qualified_for_masters(1));
    assert!(!state.is_qualified_for_masters(2));
    let empty = state_at(VCTEvent::Kickoff, &[]);
    assert!(!empty.is_qualified_for_masters(1));
    assert!(!empty.is_qualified_for_champions(1));
}

#[test]
fn top_four_qualify_for_the_champions_whatever_the_event() {
    for event in [
        VCTEvent::Kickoff,
        VCTEvent::MastersBangkok,
        VCTEvent::Stage1,
        VCTEvent::MastersToronto,
        VCTEvent::Stage2,
        VCTEvent::ChampionsParis,
    ] {
        let state = state_at(event, &[(1, 9), (2, 7), (3, 5), (4, 1), (5, 0)]);
        for team in 1..=4 {
            assert!(state.is_qualified_for_champions(team));
        }
        assert!(!state.is_qualified_for_champions(5));
        assert!(!state.is_qualified_for_champions(6));
    }
}

#[test]
fn is_in_top_looks_at_the_first_rows_only() {
    let state = state_at(VCTEvent::Kickoff, &[(1, 9), (2, 7), (3, 5)]);
    assert!(!state.is_in_top(0, 1));
    assert!(state.is_in_top(1, 1));
    assert!(!state.is_in_top(1, 2));
    assert!(state.is_in_top(3, 3));
    assert!(state.is_in_top(usize::MAX, 3));
    assert!(!state.is_in_top(usize::MAX, 4));
}

#[test]
fn scheduled_match_is_not_played_yet() {
    let date = GameDate { timestamp: 1_750_000_000, subsec_nanos: 0 };
    let scheduled = Match::new(1, 2, date, String::from("Ascent"), VCTEvent::Stage1);
    assert_eq!(scheduled.team1_id, 1);
    assert_eq!(scheduled.team2_id, 2);
    assert_eq!(scheduled.scheduled_date, date);
    assert_eq!(scheduled.map, "Ascent");
    assert_eq!(scheduled.event, VCTEvent::Stage1);
    assert!(!scheduled.completed);
    assert!(scheduled.result.is_none());
    assert_eq!((scheduled.id >> 76) & 0xf, 4);
    assert_eq!((scheduled.id >> 62) & 0x3, 2);
}

#[test]
fn match_result_names_the_side_with_more_rounds() {
    let first = MatchResult::new(1, 2, 13, 7, String::from("Bind"), MatchType::Regular);
    assert_eq!(first.winner_id, Some(1));
    assert_eq!((first.team1_id, first.team2_id), (1, 2));
    assert_eq!((first.team1_score, first.team2_score), (13, 7));
    assert_eq!(first.map, "Bind");
    assert_eq!(first.match_type, MatchType::Regular);
    let second = MatchResult::new(1, 2, 11, 13, String::from("Haven"), MatchType::Playoff);
    assert_eq!(second.winner_id, Some(2));
    assert_eq!(second.match_type, MatchType::Playoff);
}

#[test]
fn match_result_with_level_scores_has_no_winner() {
    let drawn = MatchResult::new(1, 2, 12, 12, String::from("Split"), MatchType::Masters);
    assert_eq!(drawn.winner_id, None);
    assert_eq!(MatchResult::decide_winner(5, 6, 0, 0), None);
    assert_eq!(MatchResult::decide_winner(5, 6, 1, 0), Some(5));
    assert_eq!(MatchResult::decide_winner(5, 6, 0, 1), Some(6));
    assert_eq!(MatchResult::decide_winner(5, 5, 255, 254), Some(5));
}

#[test]
fn match_result_is_dated_now_and_gets_a_random_id() {
    let first = MatchResult::new(1, 2, 13, 7, String::from("Bind"), MatchType::Kickoff);
    let second = MatchResult::new(1, 2, 13, 7, String::from("Bind"), MatchType::Champions);
    assert_ne!(first.id, second.id);
    assert_eq!((first.id >> 76) & 0xf, 4);
    assert_eq!((first.id >> 62) & 0x3, 2);
    // Later than the first day of 2024, and no leap second.
    assert!(first.date.timestamp > 1_704_067_200);
    assert!(first.date.subsec_nanos < 1_000_000_000);
    assert!(second.date.timestamp >= first.date.timestamp);
}
