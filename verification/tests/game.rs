use valorant_manager::league::{CLASSIC_LEAGUE, WORLD_LEAGUE};
use valorant_manager::names::{decimal_string, digit_str, roster_name_for, scout_name_for};
use valorant_manager::{
    AgentRole, GameDate, GameState, Morale, Player, PlayerAttributes, PlayerDraw, ScoutingDesk,
    Team, VCTEvent,
};

fn player_worth(id: u128, rating: u8, salary: i64) -> Player {
    let attributes = PlayerAttributes {
        aim: rating,
        utility_usage: rating,
        movement: rating,
        clutch_potential: rating,
        game_sense: rating,
        communication: rating,
        composure: rating,
        aggression: rating,
        adaptability: rating,
        stamina: rating,
        natural_fitness: rating,
    };
    let draw = PlayerDraw {
        id,
        role_index: 0,
        attributes,
        age: 20,
        contract_length: 2,
        preferred_proficiency: 15,
        other_proficiencies: [8, 9, 10],
    };
    let mut player = Player::from_draw(format!("P{}", id), &draw);
    player.contract_salary = salary;
    player
}

fn level(morale: Morale) -> i32 {
    match morale {
        Morale::Abysmal => 1,
        Morale::Poor => 2,
        Morale::Average => 3,
        Morale::Good => 4,
        Morale::Superb => 5,
    }
}

#[test]
fn new_game_starts_in_2025_with_five_million() {
    let game = GameState::new();
    assert!(game.current_team.is_none());
    assert_eq!(game.current_season, 2025);
    assert_eq!(game.budget, 5_000_000);
    assert!(game.all_players.is_empty());
    assert!(game.all_teams.is_empty());
    assert!(game.match_history.is_empty());
    assert_eq!(game.tournament_state.current_event, VCTEvent::Kickoff);
    assert_eq!(game.tournament_state.current_week, 1);
    assert!(game.tournament_state.championship_standings.is_empty());
    assert!(game.current_date.timestamp > 1_704_067_200);
    assert!(game.current_date.subsec_nanos < 1_000_000_000);
}

#[test]
fn default_game_is_a_new_game() {
    let game = GameState::default();
    assert!(game.current_team.is_none());
    assert_eq!(game.current_season, 2025);
    assert_eq!(game.budget, 5_000_000);
    assert!(game.all_players.is_empty());
    assert!(game.all_teams.is_empty());
    assert!(game.match_history.is_empty());
    assert_eq!(game.tournament_state.current_event, VCTEvent::Kickoff);
    assert_eq!(game.tournament_state.current_week, 1);
    assert!(game.current_date.can_advance());
    assert!(game.current_date.timestamp > 1_704_067_200);
}

#[test]
fn roster_names_count_from_one() {
    assert_eq!(roster_name_for("", 0), "Player1");
    assert_eq!(roster_name_for("", 4), "Player5");
    assert_eq!(roster_name_for("SEN_", 2), "SEN_Player3");
    assert_eq!(roster_name_for("Team Liquid_", 8), "Team Liquid_Player9");
    assert_eq!(roster_name_for("", 9), "Player10");
    assert_eq!(roster_name_for("X_", 122), "X_Player123");
    assert_eq!(roster_name_for("", u32::MAX), "Player4294967296");
}

#[test]
fn numbers_are_written_without_leading_zeros() {
    assert_eq!(decimal_string(0), "0");
    assert_eq!(decimal_string(7), "7");
    assert_eq!(decimal_string(10), "10");
    assert_eq!(decimal_string(100), "100");
    assert_eq!(decimal_string(1_234_567_890), "1234567890");
    assert_eq!(decimal_string(u64::MAX), "18446744073709551615");
    for number in [0u64, 9, 99, 101, 998, 70_000, 4_294_967_295] {
        assert_eq!(decimal_string(number), format!("{}", number));
    }
}

#[test]
fn scout_names_hold_the_slot_and_the_number() {
    assert_eq!(scout_name_for(0, 100), "Scout1100");
    assert_eq!(scout_name_for(4, 998), "Scout5998");
    assert_eq!(scout_name_for(2, 407), "Scout3407");
    assert_eq!(scout_name_for(1, 7), "Scout27");
    assert_eq!(scout_name_for(9, 0), "Scout100");
    assert_eq!(scout_name_for(u32::MAX, u32::MAX), "Scout42949672964294967295");
    for (slot, number) in [(0u32, 0u32), (3, 42), (11, 1000), (0, 999)] {
        assert_eq!(scout_name_for(slot, number), format!("Scout{}{}", slot + 1, number));
    }
}

#[test]
fn digits_are_written_as_digits() {
    let written: Vec<&str> = (0..=10).map(digit_str).collect();
    assert_eq!(written, vec!["0", "1", "2", "3", "4", "5", "6", "7", "8", "9", "?"]);
}

#[test]
fn starting_with_a_new_team_founds_the_classic_league() {
    let mut game = GameState::new();
    game.initialize_with_team(String::from("My Team"));
    let team = game.current_team.as_ref().expect("a team");
    assert_eq!(team.name, "My Team");
    assert_eq!(team.region, "Americas");
    assert_eq!(team.players.len(), 5);
    assert_eq!(team.starting_lineup, team.players);
    assert_eq!(game.all_players.len(), 55);
    assert_eq!(game.all_teams.len(), 10);
    for slot in 0..5 {
        assert_eq!(game.all_players[slot].name, format!("Player{}", slot + 1));
        assert_eq!(team.players[slot], game.all_players[slot].id);
    }
    for (at, rival) in game.all_teams.iter().enumerate() {
        assert_eq!(rival.name, CLASSIC_LEAGUE[at].0);
        assert_eq!(rival.region, "Americas");
        assert_eq!(rival.players.len(), 5);
        assert_eq!(rival.starting_lineup, rival.players);
        assert_eq!(rival.team_cohesion, 10);
        for slot in 0..5 {
            let player = &game.all_players[5 + 5 * at + slot];
            assert_eq!(player.name, format!("{}_Player{}", rival.name, slot + 1));
            assert_eq!(rival.players[slot], player.id);
        }
    }
    assert_eq!(game.all_teams[0].name, "Sentinels");
    assert_eq!(game.all_teams[9].name, "OpTic Gaming");
    assert_eq!(game.all_players[54].name, "OpTic Gaming_Player5");
    assert_eq!(game.budget, 5_000_000);
    assert_eq!(game.current_season, 2025);
}

#[test]
fn generated_players_lie_in_every_range() {
    let mut game = GameState::new();
    game.initialize_with_team(String::from("My Team"));
    for player in &game.all_players {
        let overall = player.attributes.overall_rating();
        assert!((1..=20).contains(&overall));
        assert!((8..=18).contains(&overall));
        assert!((18..=28).contains(&player.age));
        assert!((1..=4).contains(&player.contract_length));
        assert_eq!(player.morale, Morale::Average);
        assert_eq!(player.market_value, 50_000 + (overall as i64 - 8) * 45_000);
        assert_eq!(player.contract_salary, player.market_value / 5);
        assert_eq!(player.agent_proficiencies.len(), 4);
        let preferred = player.get_role_proficiency(player.preferred_role);
        assert!((14..=18).contains(&preferred));
        for role in [
            AgentRole::Duelist,
            AgentRole::Initiator,
            AgentRole::Controller,
            AgentRole::Sentinel,
        ] {
            if role != player.preferred_role {
                assert!((6..=14).contains(&player.get_role_proficiency(role)));
            }
        }
    }
}

#[test]
fn starting_with_a_known_club_leaves_it_out_of_the_league() {
    let mut game = GameState::new();
    game.initialize_with_existing_team(
        String::from("Fnatic"),
        String::from("FNC"),
        String::from("EMEA"),
    );
    let team = game.current_team.as_ref().expect("a team");
    assert_eq!(team.name, "Fnatic");
    assert_eq!(team.region, "EMEA");
    assert_eq!(team.players.len(), 5);
    assert_eq!(game.all_players[0].name, "FNC_Player1");
    assert_eq!(game.all_players[4].name, "FNC_Player5");
    assert_eq!(game.all_teams.len(), 47);
    assert_eq!(game.all_players.len(), 5 + 47 * 5);
    assert!(game.all_teams.iter().all(|rival| rival.name != "Fnatic"));
    let clubs: Vec<_> = WORLD_LEAGUE.iter().filter(|club| club.0 != "Fnatic").collect();
    for (at, rival) in game.all_teams.iter().enumerate() {
        assert_eq!(rival.name, clubs[at].0);
        assert_eq!(rival.region, clubs[at].2);
        assert_eq!(rival.players.len(), 5);
        for slot in 0..5 {
            let player = &game.all_players[5 + 5 * at + slot];
            assert_eq!(player.name, format!("{}_Player{}", clubs[at].1, slot + 1));
            assert_eq!(rival.players[slot], player.id);
        }
    }
}

#[test]
fn starting_with_an_unknown_club_founds_all_forty_eight() {
    let mut game = GameState::new();
    game.initialize_with_existing_team(
        String::from("Newcomers"),
        String::from("NEW"),
        String::from("Pacific"),
    );
    assert_eq!(game.all_teams.len(), 48);
    assert_eq!(game.all_players.len(), 5 + 48 * 5);
    assert_eq!(game.all_teams[0].name, "100 Thieves");
    assert_eq!(game.all_teams[0].region, "Americas");
    assert_eq!(game.all_teams[6].name, "KR\u{dc} Esports");
    assert_eq!(game.all_teams[7].name, "Leviat\u{e1}n");
    assert_eq!(game.all_teams[12].region, "EMEA");
    assert_eq!(game.all_teams[24].region, "Pacific");
    assert_eq!(game.all_teams[36].region, "China");
    assert_eq!(game.all_teams[47].name, "XLG Esports");
    assert_eq!(game.all_players[5].name, "100T_Player1");
    assert_eq!(game.all_players[244].name, "XLG_Player5");
    for region in ["Americas", "EMEA", "Pacific", "China"] {
        assert_eq!(game.all_teams.iter().filter(|team| team.region == region).count(), 12);
    }
}

#[test]
fn the_catalogues_name_every_club_once() {
    for (at, club) in WORLD_LEAGUE.iter().enumerate() {
        assert_eq!(WORLD_LEAGUE.iter().filter(|other| other.0 == club.0).count(), 1, "{}", at);
        assert_eq!(WORLD_LEAGUE.iter().filter(|other| other.1 == club.1).count(), 1, "{}", at);
    }
    for club in CLASSIC_LEAGUE.iter() {
        assert_eq!(club.0, club.1);
        assert_eq!(club.2, "Americas");
    }
}

#[test]
fn a_second_start_keeps_what_is_there() {
    let mut game = GameState::new();
    game.initialize_with_team(String::from("First"));
    let before: Vec<u128> = game.all_players.iter().map(|p| p.id).collect();
    game.initialize_with_team(String::from("Second"));
    assert_eq!(game.all_players.len(), 110);
    assert_eq!(game.all_teams.len(), 20);
    let after: Vec<u128> = game.all_players.iter().take(55).map(|p| p.id).collect();
    assert_eq!(before, after);
    assert_eq!(game.current_team.as_ref().map(|t| t.name.clone()), Some(String::from("Second")));
    assert_eq!(game.all_players[55].name, "Player1");
}

#[test]
fn players_are_found_by_id() {
    let mut game = GameState::new();
    game.all_players.push(player_worth(10, 12, 0));
    game.all_players.push(player_worth(20, 13, 0));
    game.all_players.push(player_worth(10, 14, 0));
    assert_eq!(game.get_player_by_id(10).map(|p| p.attributes.aim), Some(12));
    assert_eq!(game.get_player_by_id(20).map(|p| p.attributes.aim), Some(13));
    assert!(game.get_player_by_id(30).is_none());
    assert_eq!(game.player_index(10), 0);
    assert_eq!(game.player_index(20), 1);
    assert_eq!(game.player_index(30), 3);
}

#[test]
fn a_player_found_by_id_can_be_changed() {
    let mut game = GameState::new();
    game.all_players.push(player_worth(10, 12, 0));
    game.all_players.push(player_worth(20, 13, 0));
    game.all_players.push(player_worth(20, 14, 0));
    game.get_player_by_id_mut(20).expect("player 20").improve_morale();
    assert_eq!(game.all_players[0].morale, Morale::Average);
    assert_eq!(game.all_players[1].morale, Morale::Good);
    assert_eq!(game.all_players[2].morale, Morale::Average);
    assert!(game.get_player_by_id_mut(99).is_none());
}

#[test]
fn a_day_moves_the_date_by_86400_seconds() {
    let mut game = GameState::new();
    game.current_date = GameDate { timestamp: 1_750_000_000, subsec_nanos: 123_456_789 };
    game.advance_day();
    assert_eq!(game.current_date, GameDate { timestamp: 1_750_086_400, subsec_nanos: 123_456_789 });
    for _ in 0..6 {
        game.advance_day();
    }
    assert_eq!(game.current_date.timestamp, 1_750_000_000 + 7 * 86_400);
}

#[test]
fn a_day_moves_each_morale_by_one_level_at_most() {
    let mut game = GameState::new();
    game.initialize_with_team(String::from("My Team"));
    let names: Vec<String> = game.all_players.iter().map(|p| p.name.clone()).collect();
    let mut moved = 0;
    for _ in 0..60 {
        let before: Vec<Morale> = game.all_players.iter().map(|p| p.morale).collect();
        game.advance_day();
        assert_eq!(game.all_players.len(), 55);
        for (at, player) in game.all_players.iter().enumerate() {
            let step = (level(player.morale) - level(before[at])).abs();
            assert!(step <= 1);
            moved += step;
            assert_eq!(player.name, names[at]);
        }
    }
    assert!(moved > 0);
    assert_eq!(game.all_teams.len(), 10);
    assert_eq!(game.budget, 5_000_000);
}

#[test]
fn signing_costs_the_market_value() {
    let mut game = GameState::new();
    game.current_team = Some(Team::new(String::from("My Team")));
    let signed = game.sign_player(player_worth(7, 12, 0));
    assert!(signed);
    assert_eq!(game.budget, 5_000_000 - 230_000);
    assert_eq!(game.all_players.len(), 1);
    assert_eq!(game.all_players[0].id, 7);
    let team = game.current_team.as_ref().expect("a team");
    assert_eq!(team.players, vec![7]);
    assert_eq!(team.starting_lineup, vec![7]);
}

#[test]
fn signing_fails_when_the_budget_is_short() {
    let mut game = GameState::new();
    game.current_team = Some(Team::new(String::from("My Team")));
    game.budget = 229_999;
    assert!(!game.sign_player(player_worth(7, 12, 0)));
    assert_eq!(game.budget, 229_999);
    assert!(game.all_players.is_empty());
    assert!(game.current_team.as_ref().expect("a team").players.is_empty());
    game.budget = 230_000;
    assert!(game.sign_player(player_worth(7, 12, 0)));
    assert_eq!(game.budget, 0);
}

#[test]
fn signing_without_a_team_still_lists_the_player() {
    let mut game = GameState::new();
    assert!(game.sign_player(player_worth(7, 8, 0)));
    assert_eq!(game.budget, 4_950_000);
    assert_eq!(game.all_players.len(), 1);
    assert!(game.current_team.is_none());
}

#[test]
fn signing_a_player_of_negative_value_pays_the_club() {
    let mut game = GameState::new();
    assert!(game.sign_player(player_worth(7, 1, 0)));
    assert_eq!(game.budget, 5_265_000);
}

#[test]
fn new_desk_has_fifty_thousand_and_nobody_in_view() {
    let desk = ScoutingDesk::new();
    assert_eq!(desk.scouting_budget, 50_000);
    assert!(desk.scouted_players.is_empty());
}

#[test]
fn scouting_costs_ten_thousand_and_finds_three_to_five() {
    let mut desk = ScoutingDesk::new();
    for round in 1..=5i64 {
        assert!(desk.scout_new_players());
        assert_eq!(desk.scouting_budget, 50_000 - round * 10_000);
        assert!((3..=5).contains(&desk.scouted_players.len()));
        for (slot, player) in desk.scouted_players.iter().enumerate() {
            let prefix = format!("Scout{}", slot + 1);
            assert!(player.name.starts_with(&prefix));
            let number: u32 = player.name[prefix.len()..].parse().expect("a number");
            assert_eq!(player.name.len(), prefix.len() + 3);
            assert!((100..=998).contains(&number));
            assert!((8..=18).contains(&player.attributes.overall_rating()));
            assert_eq!(player.morale, Morale::Average);
        }
    }
    let left: Vec<u128> = desk.scouted_players.iter().map(|p| p.id).collect();
    assert!(!desk.scout_new_players());
    assert_eq!(desk.scouting_budget, 0);
    assert_eq!(desk.scouted_players.iter().map(|p| p.id).collect::<Vec<_>>(), left);
}

#[test]
fn scouting_replaces_the_earlier_list() {
    let mut desk = ScoutingDesk::new();
    desk.scouted_players.push(player_worth(1, 12, 0));
    assert!(desk.scout_new_players());
    assert!(desk.scouted_players.iter().all(|p| p.id != 1));
}

#[test]
fn scouting_needs_the_whole_fee() {
    let mut desk = ScoutingDesk::new();
    desk.scouting_budget = 9_999;
    desk.scouted_players.push(player_worth(1, 12, 0));
    assert!(!desk.scout_new_players());
    assert_eq!(desk.scouting_budget, 9_999);
    assert_eq!(desk.scouted_players.len(), 1);
    desk.scouting_budget = 10_000;
    assert!(desk.scout_new_players());
    assert_eq!(desk.scouting_budget, 0);
}

#[test]
fn a_scouted_player_is_signed_and_leaves_the_list() {
    let mut game = GameState::new();
    game.current_team = Some(Team::new(String::from("My Team")));
    let mut desk = ScoutingDesk::new();
    desk.scouted_players.push(player_worth(1, 10, 0));
    desk.scouted_players.push(player_worth(2, 12, 0));
    desk.scouted_players.push(player_worth(3, 14, 0));
    assert!(desk.sign_player(2, &mut game));
    assert_eq!(desk.scouted_players.iter().map(|p| p.id).collect::<Vec<_>>(), vec![1, 3]);
    assert_eq!(game.budget, 5_000_000 - 230_000);
    assert_eq!(game.all_players.len(), 1);
    assert_eq!(game.current_team.as_ref().expect("a team").players, vec![2]);
    assert_eq!(desk.scouting_budget, 50_000);
}

#[test]
fn a_scouted_player_who_costs_too_much_is_lost() {
    let mut game = GameState::new();
    game.budget = 1_000;
    let mut desk = ScoutingDesk::new();
    desk.scouted_players.push(player_worth(1, 10, 0));
    desk.scouted_players.push(player_worth(2, 12, 0));
    assert!(!desk.sign_player(2, &mut game));
    assert_eq!(desk.scouted_players.iter().map(|p| p.id).collect::<Vec<_>>(), vec![1]);
    assert_eq!(game.budget, 1_000);
    assert!(game.all_players.is_empty());
}

#[test]
fn signing_somebody_unknown_changes_nothing() {
    let mut game = GameState::new();
    let mut desk = ScoutingDesk::new();
    desk.scouted_players.push(player_worth(1, 10, 0));
    assert!(!desk.sign_player(9, &mut game));
    assert_eq!(desk.scouted_players.len(), 1);
    assert_eq!(game.budget, 5_000_000);
    assert_eq!(desk.scouted_index(1), 0);
    assert_eq!(desk.scouted_index(9), 1);
}

#[test]
fn overview_needs_a_team() {
    let game = GameState::new();
    assert!(game.finance_overview().is_none());
}

#[test]
fn overview_sums_a_twelfth_of_each_salary() {
    let mut game = GameState::new();
    let mut team = Team::new(String::from("My Team"));
    for (id, salary) in [(1u128, 120_000i64), (2, 60_011), (3, -25)] {
        game.all_players.push(player_worth(id, 12, salary));
        team.add_player(id);
    }
    // A member who is no player of the game earns nothing; a player who is no member neither.
    team.add_player(99);
    game.all_players.push(player_worth(4, 12, 1_000_000));
    game.current_team = Some(team);
    let overview = game.finance_overview().expect("an overview");
    // 10_000 + 5_000 (60_011 / 12, rounded down) - 2 (-25 / 12, rounded towards zero)
    assert_eq!(overview.monthly_salaries, 14_998);
    assert_eq!(overview.facility_costs, 10_000);
    assert_eq!(overview.marketing_budget, 5_000);
    assert_eq!(overview.monthly_income, 50_000);
    assert_eq!(overview.total_expenses, 29_998);
    assert_eq!(overview.net_monthly, 20_002);
    assert_eq!(overview.six_month_projection, 5_000_000 + 6 * 20_002);
    assert_eq!(overview.available_for_transfers, 1_500_000);
}

#[test]
fn overview_offers_nothing_for_transfers_in_the_red() {
    let mut game = GameState::new();
    game.current_team = Some(Team::new(String::from("My Team")));
    game.budget = -1_000;
    let overview = game.finance_overview().expect("an overview");
    assert_eq!(overview.monthly_salaries, 0);
    assert_eq!(overview.net_monthly, 35_000);
    assert_eq!(overview.six_month_projection, 209_000);
    assert_eq!(overview.available_for_transfers, 0);
    game.budget = 99;
    assert_eq!(game.finance_overview().expect("an overview").available_for_transfers, 29);
}

#[test]
fn overview_holds_the_largest_figures() {
    let mut game = GameState::new();
    let mut team = Team::new(String::from("My Team"));
    for id in 1..=3u128 {
        game.all_players.push(player_worth(id, 12, i64::MIN));
        team.add_player(id);
    }
    game.current_team = Some(team);
    game.budget = i64::MAX;
    let overview = game.finance_overview().expect("an overview");
    let share = (i64::MIN / 12) as i128;
    assert_eq!(overview.monthly_salaries, 3 * share);
    assert_eq!(overview.net_monthly, 35_000 - 3 * share);
    assert_eq!(overview.six_month_projection, i64::MAX as i128 + 6 * (35_000 - 3 * share));
    assert_eq!(overview.available_for_transfers, i64::MAX as i128 * 30 / 100);
}
