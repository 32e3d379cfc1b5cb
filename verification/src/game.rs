//! The whole game: the manager's team, every player and team of the league,
//! the season's state, and the passing of days.

use crate::calendar::{utc_now, GameDate};
use crate::economy::{BASE_FACILITY_COSTS, BASE_MARKETING_BUDGET, BASE_MONTHLY_INCOME};
use crate::identity::{
    first_index_of, first_index_of_found, first_index_of_is_first, is_random_uuid,
};
use crate::league::{club_views, not_named, rivals, Club, ClubView, CLASSIC_LEAGUE, WORLD_LEAGUE};
use crate::match_simulation::{MatchResult, MatchResultView};
use crate::names::{roster_name, roster_name_for};
use crate::player::{Player, PlayerView};
use crate::team::{joining_keeps_the_rest, Team, TeamView};
use crate::tournament::{TournamentState, TournamentView};
use vstd::prelude::*;
use vstd::string::*;

verus! {

/// The season in which a new game starts.
pub const FIRST_SEASON: u32 = 2025;

/// The budget with which a new game starts.
pub const STARTING_BUDGET: i64 = 5_000_000;

/// Players on a generated roster.
pub const ROSTER_SIZE: usize = 5;

/// Everything the game knows.
#[derive(Debug, Clone)]
pub struct GameState {
    pub current_team: Option<Team>,
    pub current_season: u32,
    pub budget: i64,
    pub current_date: GameDate,
    pub tournament_state: TournamentState,
    pub all_players: Vec<Player>,
    pub all_teams: Vec<Team>,
    pub match_history: Vec<MatchResult>,
}

/// What a `GameState` holds, as plain values.
pub struct GameView {
    pub current_team: Option<TeamView>,
    pub current_season: u32,
    pub budget: i64,
    pub current_date: GameDate,
    pub tournament_state: TournamentView,
    pub all_players: Seq<PlayerView>,
    pub all_teams: Seq<TeamView>,
    pub match_history: Seq<MatchResultView>,
}

/// The players of a list, each as plain values.
pub open spec fn player_views(players: Seq<Player>) -> Seq<PlayerView> {
    Seq::new(players.len(), |i: int| players[i]@)
}

/// The teams of a list, each as plain values.
pub open spec fn team_views(teams: Seq<Team>) -> Seq<TeamView> {
    Seq::new(teams.len(), |i: int| teams[i]@)
}

/// The match records of a list, each as plain values.
pub open spec fn result_views(results: Seq<MatchResult>) -> Seq<MatchResultView> {
    Seq::new(results.len(), |i: int| results[i]@)
}

/// A name that may be missing, as plain values.
pub open spec fn name_view(name: Option<String>) -> Option<Seq<char>> {
    match name {
        Some(name) => Some(name@),
        None => None,
    }
}

/// The ids of a list of players, one by one.
pub open spec fn player_ids(players: Seq<PlayerView>) -> Seq<u128> {
    Seq::new(players.len(), |i: int| players[i].id)
}

impl View for GameState {
    type V = GameView;

    open spec fn view(&self) -> GameView {
        GameView {
            current_team: match self.current_team {
                Some(team) => Some(team@),
                None => None,
            },
            current_season: self.current_season,
            budget: self.budget,
            current_date: self.current_date,
            tournament_state: self.tournament_state@,
            all_players: player_views(self.all_players@),
            all_teams: team_views(self.all_teams@),
            match_history: result_views(self.match_history@),
        }
    }
}

/// Whether `roster` is a roster as it is generated under `prefix`: five
/// new players, named after their slots.
pub open spec fn is_roster(roster: Seq<PlayerView>, prefix: Seq<char>) -> bool {
    &&& roster.len() == ROSTER_SIZE
    &&& forall|slot: int|
        0 <= slot < ROSTER_SIZE ==> (#[trigger] roster[slot]).is_recruit(roster_name(prefix, slot))
}

/// Whether `team` is a team newly founded under `name` in `region`, which
/// the players of `roster` have then joined one after the other.
pub open spec fn is_founded_with(
    team: TeamView,
    roster: Seq<PlayerView>,
    name: Seq<char>,
    region: Seq<char>,
) -> bool {
    &&& is_random_uuid(team.id)
    &&& team == TeamView::founded(team.id, name, region).with_players(player_ids(roster))
}

/// The players of the club at position `at` of a league: five in a row.
pub open spec fn roster_at(players: Seq<PlayerView>, at: int) -> Seq<PlayerView> {
    players.subrange(ROSTER_SIZE * at, ROSTER_SIZE * at + ROSTER_SIZE)
}

/// Whether `teams` and `players` are a league founded from `clubs`: one team
/// for each club, in the catalogue's order, under the club's name and in its
/// region, each with a roster of its own generated under the club's short
/// name and an underscore.
pub open spec fn is_league_of(
    teams: Seq<TeamView>,
    players: Seq<PlayerView>,
    clubs: Seq<ClubView>,
) -> bool {
    &&& teams.len() == clubs.len()
    &&& players.len() == ROSTER_SIZE * clubs.len()
    &&& forall|at: int|
        0 <= at < clubs.len() ==> is_roster(
            #[trigger] roster_at(players, at),
            clubs[at].nickname + "_"@,
        )
    &&& forall|at: int|
        0 <= at < clubs.len() ==> is_founded_with(
            #[trigger] teams[at],
            roster_at(players, at),
            clubs[at].name,
            clubs[at].region,
        )
}

/// A yearly salary by the month: a twelfth of it, rounded towards zero.
pub open spec fn monthly_share(yearly: int) -> int {
    if yearly >= 0 {
        yearly / 12
    } else {
        -((-yearly) / 12)
    }
}

/// What the members `member_ids` earn in a month, taken together. A member
/// who is not among `players` earns nothing; one who is earns what the first
/// player with that id earns.
pub open spec fn monthly_salaries(players: Seq<PlayerView>, member_ids: Seq<u128>) -> int
    decreases member_ids.len(),
{
    if member_ids.len() == 0 {
        0
    } else {
        let at = first_index_of(player_ids(players), member_ids.last());
        monthly_salaries(players, member_ids.drop_last()) + if at < players.len() {
            monthly_share(players[at].contract_salary as int)
        } else {
            0
        }
    }
}

/// A club's books at a glance.
#[derive(Debug, Clone, Copy)]
pub struct FinanceOverview {
    pub monthly_salaries: i128,
    pub facility_costs: i128,
    pub marketing_budget: i128,
    pub monthly_income: i128,
    pub total_expenses: i128,
    pub net_monthly: i128,
    pub six_month_projection: i128,
    pub available_for_transfers: i128,
}

impl FinanceOverview {
    /// The overview that belongs to a budget and to the salaries of a month:
    /// the base income against salaries, facilities and marketing; the budget
    /// as it will be after six such months; and the three tenths of the
    /// budget that may go into transfers, which are never less than nothing.
    pub open spec fn of(budget: int, monthly_salaries: int) -> FinanceOverview {
        let total_expenses = monthly_salaries + BASE_FACILITY_COSTS + BASE_MARKETING_BUDGET;
        let net_monthly = BASE_MONTHLY_INCOME - total_expenses;
        let share = if budget >= 0 {
            budget * 30 / 100
        } else {
            0
        };
        FinanceOverview {
            monthly_salaries: monthly_salaries as i128,
            facility_costs: BASE_FACILITY_COSTS as i128,
            marketing_budget: BASE_MARKETING_BUDGET as i128,
            monthly_income: BASE_MONTHLY_INCOME as i128,
            total_expenses: total_expenses as i128,
            net_monthly: net_monthly as i128,
            six_month_projection: (budget + net_monthly * 6) as i128,
            available_for_transfers: share as i128,
        }
    }
}

/// Whether `after` is `before` one day later: the same player, with the
/// morale as it was or one level off.
pub open spec fn a_day_older(before: PlayerView, after: PlayerView) -> bool {
    &&& after == (PlayerView { morale: after.morale, ..before })
    &&& after.morale == before.morale || after.morale == before.morale.raised() || after.morale
        == before.morale.lowered()
}

impl GameView {
    /// A game before its start, opened at `date`: no team, no players, the
    /// season at its opening.
    pub open spec fn opened_at(date: GameDate) -> GameView {
        GameView {
            current_team: None,
            current_season: FIRST_SEASON,
            budget: STARTING_BUDGET,
            current_date: date,
            tournament_state: TournamentView::opening(),
            all_players: Seq::empty(),
            all_teams: Seq::empty(),
            match_history: Seq::empty(),
        }
    }

    /// The game after an attempt to sign `player` for the market value:
    /// unchanged where the budget does not cover it; otherwise the budget has
    /// paid, and the player has joined the manager's team, if there is one,
    /// and stands last among all players.
    pub open spec fn after_signing(self, player: PlayerView) -> GameView {
        if self.budget >= player.market_value {
            GameView {
                budget: (self.budget - player.market_value) as i64,
                current_team: match self.current_team {
                    Some(team) => Some(team.with_player(player.id)),
                    None => None,
                },
                all_players: self.all_players.push(player),
                ..self
            }
        } else {
            self
        }
    }

    /// The position of the first player with `id`, and the number of players
    /// where there is none.
    pub open spec fn position_of(self, id: u128) -> int {
        first_index_of(player_ids(self.all_players), id)
    }
}

impl Default for GameState {
    /// Opens a game at the present moment, as `GameState::new` does.
    fn default() -> (state: Self)
        ensures
            state@ == GameView::opened_at(state.current_date),
            state.current_date.is_valid(),
    {
        GameState::new()
    }
}

impl GameState {
    /// Opens a game at the present moment.
    pub fn new() -> (state: Self)
        ensures
            state@ == GameView::opened_at(state.current_date),
            state.current_date.is_valid(),
    {
        let state = GameState {
            current_team: None,
            current_season: FIRST_SEASON,
            budget: STARTING_BUDGET,
            current_date: utc_now(),
            tournament_state: TournamentState::new(),
            all_players: Vec::new(),
            all_teams: Vec::new(),
            match_history: Vec::new(),
        };
        assert(state@.all_players =~= Seq::empty());
        assert(state@.all_teams =~= Seq::empty());
        assert(state@.match_history =~= Seq::empty());
        state
    }

    /// Generates a roster under `prefix`: five new players, who join the
    /// list of all players and, one after the other, `team`.
    fn generate_team_roster(&mut self, team: &mut Team, prefix: &str)
        ensures
            final(self)@ == (GameView { all_players: final(self)@.all_players, ..old(self)@ }),
            final(self)@.all_players.len() == old(self)@.all_players.len() + ROSTER_SIZE,
            final(self)@.all_players.take(old(self)@.all_players.len() as int) == old(
                self,
            )@.all_players,
            is_roster(final(self)@.all_players.skip(old(self)@.all_players.len() as int), prefix@),
            final(team)@ == old(team)@.with_players(
                player_ids(final(self)@.all_players.skip(old(self)@.all_players.len() as int)),
            ),
    {
        let ghost start = self@.all_players.len() as int;
        let mut slot: usize = 0;
        assert(self@.all_players.take(start) =~= self@.all_players);
        assert(player_ids(self@.all_players.skip(start)) =~= Seq::<u128>::empty());
        while slot < ROSTER_SIZE
            invariant
                slot <= ROSTER_SIZE,
                start == old(self)@.all_players.len(),
                self@ == (GameView { all_players: self@.all_players, ..old(self)@ }),
                self@.all_players.len() == start + slot,
                self@.all_players.take(start) == old(self)@.all_players,
                forall|k: int|
                    0 <= k < slot ==> (#[trigger] self@.all_players.skip(start)[k]).is_recruit(
                        roster_name(prefix@, k),
                    ),
                team@ == old(team)@.with_players(player_ids(self@.all_players.skip(start))),
            decreases ROSTER_SIZE - slot,
        {
            let ghost before = self@.all_players;
            let ghost ids_before = player_ids(before.skip(start));
            let player = Player::generate_random(roster_name_for(prefix, slot as u32));
            team.add_player(player.id);
            self.all_players.push(player);
            proof {
                let after = self@.all_players;
                assert(after =~= before.push(player@));
                assert(after.take(start) =~= before.take(start));
                assert(after.skip(start) =~= before.skip(start).push(player@));
                let ids_after = player_ids(after.skip(start));
                assert(ids_after =~= ids_before.push(player.id));
                assert(ids_after.drop_last() =~= ids_before);
                assert(ids_after.last() == player.id);
                assert forall|k: int| 0 <= k < slot + 1 implies (#[trigger] after.skip(
                    start,
                )[k]).is_recruit(roster_name(prefix@, k)) by {
                    if k < slot {
                        assert(after.skip(start)[k] == before.skip(start)[k]);
                    }
                }
            }
            slot = slot + 1;
        }
    }

    /// Founds the manager's team under `team_name`, with a roster of five
    /// new players, and the single-region league around it.
    pub fn initialize_with_team(&mut self, team_name: String)
        ensures
            final(self)@ == (GameView {
                current_team: final(self)@.current_team,
                all_players: final(self)@.all_players,
                all_teams: final(self)@.all_teams,
                ..old(self)@
            }),
            final(self)@.all_players.take(old(self)@.all_players.len() as int) == old(
                self,
            )@.all_players,
            final(self)@.all_teams.take(old(self)@.all_teams.len() as int) == old(self)@.all_teams,
            final(self)@.all_players.len() >= old(self)@.all_players.len() + ROSTER_SIZE,
            ({
                let own = final(self)@.all_players.subrange(
                    old(self)@.all_players.len() as int,
                    old(self)@.all_players.len() + ROSTER_SIZE,
                );
                &&& is_roster(own, ""@)
                &&& final(self)@.current_team is Some
                &&& is_founded_with(
                    final(self)@.current_team->Some_0,
                    own,
                    team_name@,
                    "Americas"@,
                )
            }),
            is_league_of(
                final(self)@.all_teams.skip(old(self)@.all_teams.len() as int),
                final(self)@.all_players.skip(old(self)@.all_players.len() + ROSTER_SIZE),
                club_views(CLASSIC_LEAGUE@),
            ),
    {
        let ghost start = self@.all_players.len() as int;
        let mut team = Team::new(team_name);
        let ghost founded = team@;
        self.generate_team_roster(&mut team, "");
        self.current_team = Some(team);
        let ghost own = self@.all_players.skip(start);
        let ghost midway = self@;
        self.generate_league_teams();
        proof {
            joining_keeps_the_rest(founded, player_ids(own));
            let after = self@.all_players;
            assert(after.take(start + ROSTER_SIZE) == midway.all_players);
            assert(after.subrange(start, start + ROSTER_SIZE) =~= own);
            assert(after.take(start) =~= midway.all_players.take(start));
        }
    }

    /// Founds the manager's team under `team_name` in `region`, with a
    /// roster of five new players named after `team_nickname`, and around it
    /// the four regional leagues, less the clubs that bear the team's name.
    pub fn initialize_with_existing_team(
        &mut self,
        team_name: String,
        team_nickname: String,
        region: String,
    )
        ensures
            final(self)@ == (GameView {
                current_team: final(self)@.current_team,
                all_players: final(self)@.all_players,
                all_teams: final(self)@.all_teams,
                ..old(self)@
            }),
            final(self)@.all_players.take(old(self)@.all_players.len() as int) == old(
                self,
            )@.all_players,
            final(self)@.all_teams.take(old(self)@.all_teams.len() as int) == old(self)@.all_teams,
            final(self)@.all_players.len() >= old(self)@.all_players.len() + ROSTER_SIZE,
            ({
                let own = final(self)@.all_players.subrange(
                    old(self)@.all_players.len() as int,
                    old(self)@.all_players.len() + ROSTER_SIZE,
                );
                &&& is_roster(own, team_nickname@ + "_"@)
                &&& final(self)@.current_team is Some
                &&& is_founded_with(final(self)@.current_team->Some_0, own, team_name@, region@)
            }),
            is_league_of(
                final(self)@.all_teams.skip(old(self)@.all_teams.len() as int),
                final(self)@.all_players.skip(old(self)@.all_players.len() + ROSTER_SIZE),
                rivals(club_views(WORLD_LEAGUE@), Some(team_name@)),
            ),
    {
        let ghost start = self@.all_players.len() as int;
        let mut team = Team::new_in_region(team_name, region);
        let ghost founded = team@;
        let mut prefix = team_nickname;
        prefix.append("_");
        self.generate_team_roster(&mut team, prefix.as_str());
        proof {
            joining_keeps_the_rest(founded, player_ids(self@.all_players.skip(start)));
        }
        self.current_team = Some(team);
        let ghost own = self@.all_players.skip(start);
        let ghost midway = self@;
        self.generate_all_league_teams();
        proof {
            let after = self@.all_players;
            assert(after.take(start + ROSTER_SIZE) == midway.all_players);
            assert(after.subrange(start, start + ROSTER_SIZE) =~= own);
            assert(after.take(start) =~= midway.all_players.take(start));
        }
    }

    /// Founds the single-region league: every club of its catalogue, each
    /// with a roster of its own.
    fn generate_league_teams(&mut self)
        ensures
            final(self)@ == (GameView {
                all_players: final(self)@.all_players,
                all_teams: final(self)@.all_teams,
                ..old(self)@
            }),
            final(self)@.all_players.len() >= old(self)@.all_players.len(),
            final(self)@.all_teams.len() >= old(self)@.all_teams.len(),
            final(self)@.all_players.take(old(self)@.all_players.len() as int) == old(
                self,
            )@.all_players,
            final(self)@.all_teams.take(old(self)@.all_teams.len() as int) == old(self)@.all_teams,
            is_league_of(
                final(self)@.all_teams.skip(old(self)@.all_teams.len() as int),
                final(self)@.all_players.skip(old(self)@.all_players.len() as int),
                club_views(CLASSIC_LEAGUE@),
            ),
    {
        let own_name: Option<String> = None;
        self.found_league(CLASSIC_LEAGUE.as_slice(), &own_name);
        proof {
            let clubs = club_views(CLASSIC_LEAGUE@);
            assert forall|i: int| 0 <= i < clubs.len() implies not_named(None)(clubs[i]) by {}
            all_kept(clubs, not_named(None));
        }
    }

    /// Founds the four regional leagues: every club of their catalogue that
    /// does not bear the name of the manager's team, each with a roster of
    /// its own.
    fn generate_all_league_teams(&mut self)
        ensures
            final(self)@ == (GameView {
                all_players: final(self)@.all_players,
                all_teams: final(self)@.all_teams,
                ..old(self)@
            }),
            final(self)@.all_players.len() >= old(self)@.all_players.len(),
            final(self)@.all_teams.len() >= old(self)@.all_teams.len(),
            final(self)@.all_players.take(old(self)@.all_players.len() as int) == old(
                self,
            )@.all_players,
            final(self)@.all_teams.take(old(self)@.all_teams.len() as int) == old(self)@.all_teams,
            is_league_of(
                final(self)@.all_teams.skip(old(self)@.all_teams.len() as int),
                final(self)@.all_players.skip(old(self)@.all_players.len() as int),
                rivals(
                    club_views(WORLD_LEAGUE@),
                    match old(self)@.current_team {
                        Some(team) => Some(team.name),
                        None => None,
                    },
                ),
            ),
    {
        let own_name: Option<String> = match &self.current_team {
            Some(team) => Some(team.name.clone()),
            None => None,
        };
        self.found_league(WORLD_LEAGUE.as_slice(), &own_name);
    }

    /// Founds a league from `clubs`, less the clubs that bear `own_name`:
    /// for each club left a team under the club's name and in its region,
    /// with a roster generated under the club's short name and an underscore.
    fn found_league(&mut self, clubs: &[Club], own_name: &Option<String>)
        ensures
            final(self)@ == (GameView {
                all_players: final(self)@.all_players,
                all_teams: final(self)@.all_teams,
                ..old(self)@
            }),
            final(self)@.all_players.len() >= old(self)@.all_players.len(),
            final(self)@.all_teams.len() >= old(self)@.all_teams.len(),
            final(self)@.all_players.take(old(self)@.all_players.len() as int) == old(
                self,
            )@.all_players,
            final(self)@.all_teams.take(old(self)@.all_teams.len() as int) == old(self)@.all_teams,
            is_league_of(
                final(self)@.all_teams.skip(old(self)@.all_teams.len() as int),
                final(self)@.all_players.skip(old(self)@.all_players.len() as int),
                rivals(club_views(clubs@), name_view(*own_name)),
            ),
    {
        let ghost first_player = self@.all_players.len() as int;
        let ghost first_team = self@.all_teams.len() as int;
        let ghost own: Option<Seq<char>> = name_view(*own_name);
        let mut at: usize = 0;
        proof {
            assert(self@.all_players.take(first_player) =~= self@.all_players);
            assert(self@.all_teams.take(first_team) =~= self@.all_teams);
            assert(club_views(clubs@.take(0)) =~= Seq::<ClubView>::empty());
        }
        while at < clubs.len()
            invariant
                at <= clubs@.len(),
                first_player == old(self)@.all_players.len(),
                first_team == old(self)@.all_teams.len(),
                own == name_view(*own_name),
                self@ == (GameView {
                    all_players: self@.all_players,
                    all_teams: self@.all_teams,
                    ..old(self)@
                }),
                self@.all_players.len() >= first_player,
                self@.all_teams.len() >= first_team,
                self@.all_players.take(first_player) == old(self)@.all_players,
                self@.all_teams.take(first_team) == old(self)@.all_teams,
                is_league_of(
                    self@.all_teams.skip(first_team),
                    self@.all_players.skip(first_player),
                    rivals(club_views(clubs@.take(at as int)), own),
                ),
            decreases clubs@.len() - at,
        {
            let club: Club = clubs[at];
            let name = String::from_str(club.0);
            let taken: bool = match own_name {
                Some(own_name) => *own_name == name,
                None => false,
            };
            let ghost joined = rivals(club_views(clubs@.take(at as int)), own);
            let ghost teams_before = self@.all_teams;
            let ghost players_before = self@.all_players;
            proof {
                let seen = club_views(clubs@.take(at as int));
                let this = ClubView { name: club.0@, nickname: club.1@, region: club.2@ };
                assert(club_views(clubs@.take(at + 1)) =~= seen.push(this));
                Seq::lemma_filter_push(seen, this, not_named(own));
            }
            if !taken {
                let mut team = Team::new_in_region(name, String::from_str(club.2));
                let ghost founded = team@;
                let mut prefix = String::from_str(club.1);
                prefix.append("_");
                self.generate_team_roster(&mut team, prefix.as_str());
                let ghost joined_team = team@;
                self.all_teams.push(team);
                proof {
                    let this = ClubView { name: club.0@, nickname: club.1@, region: club.2@ };
                    let roster = self@.all_players.skip(players_before.len() as int);
                    joining_keeps_the_rest(founded, player_ids(roster));
                    assert(self@.all_teams =~= teams_before.push(joined_team));
                    assert(self@.all_teams.skip(first_team) =~= teams_before.skip(first_team).push(
                        joined_team,
                    ));
                    assert(self@.all_players.take(players_before.len() as int) == players_before);
                    assert(self@.all_players.skip(first_player) =~= players_before.skip(
                        first_player,
                    ) + roster) by {
                        assert forall|k: int| 0 <= k < players_before.len() - first_player implies
                            self@.all_players.skip(first_player)[k] == players_before.skip(
                            first_player,
                        )[k] by {
                            assert(self@.all_players[first_player + k] == self@.all_players.take(
                                players_before.len() as int,
                            )[first_player + k]);
                        }
                    }
                    assert(self@.all_players.take(first_player) =~= players_before.take(
                        first_player,
                    ));
                    assert(self@.all_teams.take(first_team) =~= teams_before.take(first_team));
                    league_takes_in(
                        teams_before.skip(first_team),
                        players_before.skip(first_player),
                        joined,
                        joined_team,
                        roster,
                        this,
                    );
                    assert(rivals(club_views(clubs@.take(at + 1)), own) == joined.push(this));
                }
            } else {
                assert(rivals(club_views(clubs@.take(at + 1)), own) == joined);
            }
            at = at + 1;
        }
        assert(clubs@.take(at as int) =~= clubs@);
    }

    /// The books of the manager's team at a glance, and nothing where there
    /// is no team.
    pub fn finance_overview(&self) -> (overview: Option<FinanceOverview>)
        ensures
            overview == match self@.current_team {
                Some(team) => Some(
                    FinanceOverview::of(
                        self.budget as int,
                        monthly_salaries(self@.all_players, team.players),
                    ),
                ),
                None => None::<FinanceOverview>,
            },
    {
        match &self.current_team {
            Some(team) => {
                let mut total: i128 = 0;
                let mut at: usize = 0;
                assert(team.players@.take(0) =~= Seq::<u128>::empty());
                while at < team.players.len()
                    invariant
                        at <= team.players@.len(),
                        total == monthly_salaries(self@.all_players, team.players@.take(at as int)),
                        -(at * 0x1000_0000_0000_0000) <= total <= at * 0x1000_0000_0000_0000,
                    decreases team.players@.len() - at,
                {
                    proof {
                        assert(team.players@.take(at + 1).drop_last() =~= team.players@.take(
                            at as int,
                        ));
                        assert(team.players@.take(at + 1).last() == team.players@[at as int]);
                    }
                    let found = self.player_index(team.players[at]);
                    if found < self.all_players.len() {
                        let salary: i64 = self.all_players[found].contract_salary / 12;
                        total = total + salary as i128;
                    }
                    at = at + 1;
                }
                assert(team.players@.take(at as int) =~= team.players@);
                let total_expenses: i128 = total + BASE_FACILITY_COSTS as i128
                    + BASE_MARKETING_BUDGET as i128;
                let net_monthly: i128 = BASE_MONTHLY_INCOME as i128 - total_expenses;
                let share: i128 = if self.budget >= 0 {
                    self.budget as i128 * 30 / 100
                } else {
                    0
                };
                Some(
                    FinanceOverview {
                        monthly_salaries: total,
                        facility_costs: BASE_FACILITY_COSTS as i128,
                        marketing_budget: BASE_MARKETING_BUDGET as i128,
                        monthly_income: BASE_MONTHLY_INCOME as i128,
                        total_expenses,
                        net_monthly,
                        six_month_projection: self.budget as i128 + net_monthly * 6,
                        available_for_transfers: share,
                    },
                )
            },
            None => None,
        }
    }

    /// Signs `player` for the market value, if the budget covers it: the
    /// budget pays, the player joins the manager's team, if there is one, and
    /// the list of all players. Says whether the player was signed.
    pub fn sign_player(&mut self, player: Player) -> (signed: bool)
        requires
            old(self).budget - player.market_value <= i64::MAX,
        ensures
            signed == (old(self).budget >= player.market_value),
            final(self)@ == old(self)@.after_signing(player@),
    {
        if self.budget >= player.market_value {
            self.budget = self.budget - player.market_value;
            match &mut self.current_team {
                Some(team) => {
                    team.add_player(player.id);
                },
                None => {},
            }
            let ghost before = self@.all_players;
            let ghost signed = player@;
            self.all_players.push(player);
            assert(self@.all_players =~= before.push(signed));
            true
        } else {
            false
        }
    }

    /// The position of the first player with `id`, and the number of players
    /// where there is none.
    pub fn player_index(&self, id: u128) -> (at: usize)
        ensures
            at == self@.position_of(id),
            at <= self@.all_players.len(),
            at < self@.all_players.len() ==> self@.all_players[at as int].id == id,
    {
        let ghost ids = player_ids(self@.all_players);
        let mut at: usize = 0;
        while at < self.all_players.len()
            invariant
                at <= self.all_players@.len(),
                ids == player_ids(self@.all_players),
                forall|j: int| 0 <= j < at ==> ids[j] != id,
            decreases self.all_players@.len() - at,
        {
            if self.all_players[at].id == id {
                proof {
                    first_index_of_found(ids, id, at as int);
                }
                return at;
            }
            at = at + 1;
        }
        proof {
            first_index_of_is_first(ids, id);
        }
        at
    }

    /// The first player with `id`, if there is one.
    pub fn get_player_by_id(&self, id: u128) -> (found: Option<&Player>)
        ensures
            match found {
                Some(player) => self@.position_of(id) < self@.all_players.len() && player@
                    == self@.all_players[self@.position_of(id)],
                None => self@.position_of(id) == self@.all_players.len(),
            },
    {
        let at = self.player_index(id);
        if at < self.all_players.len() {
            Some(&self.all_players[at])
        } else {
            None
        }
    }

    /// The first player with `id`, if there is one, to be changed in place.
    pub fn get_player_by_id_mut(&mut self, id: u128) -> (found: Option<&mut Player>)
        ensures
            match found {
                Some(player) => {
                    let at = old(self)@.position_of(id);
                    &&& at < old(self)@.all_players.len()
                    &&& player@ == old(self)@.all_players[at]
                    &&& final(self)@.all_players =~= old(self)@.all_players.update(
                        at,
                        final(player)@,
                    )
                    &&& final(self)@ == (GameView {
                        all_players: final(self)@.all_players,
                        ..old(self)@
                    })
                },
                None => old(self)@.position_of(id) == old(self)@.all_players.len() && final(self)@
                    == old(self)@,
            },
    {
        let at = self.player_index(id);
        if at < self.all_players.len() {
            Some(&mut self.all_players[at])
        } else {
            None
        }
    }

    /// Moves the date one day on, and lets every player live through the day.
    pub fn advance_day(&mut self)
        requires
            old(self).current_date.has_next_day(),
        ensures
            final(self)@ == (GameView {
                current_date: old(self).current_date.next_day(),
                all_players: final(self)@.all_players,
                ..old(self)@
            }),
            final(self)@.all_players.len() == old(self)@.all_players.len(),
            forall|i: int|
                0 <= i < old(self)@.all_players.len() ==> a_day_older(
                    old(self)@.all_players[i],
                    #[trigger] final(self)@.all_players[i],
                ),
    {
        self.current_date = self.current_date.advance();
        let mut at: usize = 0;
        while at < self.all_players.len()
            invariant
                at <= self.all_players@.len(),
                self@ == (GameView {
                    current_date: old(self).current_date.next_day(),
                    all_players: self@.all_players,
                    ..old(self)@
                }),
                self@.all_players.len() == old(self)@.all_players.len(),
                forall|i: int|
                    0 <= i < at ==> a_day_older(
                        old(self)@.all_players[i],
                        #[trigger] self@.all_players[i],
                    ),
                forall|i: int|
                    at <= i < self@.all_players.len() ==> #[trigger] self@.all_players[i] == old(
                        self,
                    )@.all_players[i],
            decreases self.all_players@.len() - at,
        {
            let ghost before = self.all_players@;
            self.all_players[at].daily_update();
            assert forall|i: int| 0 <= i < self@.all_players.len() && i != at implies
                #[trigger] self@.all_players[i] == player_views(before)[i] by {
                assert(self.all_players@[i] == before[i]);
            }
            assert(a_day_older(player_views(before)[at as int], self@.all_players[at as int]));
            at = at + 1;
        }
    }
}

/// A team that was founded with a roster is well formed: its lineup holds
/// members only, and no more than five. It bears the name and the region it
/// was founded with.
pub proof fn founded_team_is_well_formed(
    team: TeamView,
    roster: Seq<PlayerView>,
    name: Seq<char>,
    region: Seq<char>,
)
    requires
        is_founded_with(team, roster, name, region),
    ensures
        team.well_formed(),
        team.name == name,
        team.region == region,
{
    joining_keeps_the_rest(TeamView::founded(team.id, name, region), player_ids(roster));
}

/// A league stays one when a further club's team joins it with its roster.
proof fn league_takes_in(
    teams: Seq<TeamView>,
    players: Seq<PlayerView>,
    clubs: Seq<ClubView>,
    team: TeamView,
    roster: Seq<PlayerView>,
    club: ClubView,
)
    requires
        is_league_of(teams, players, clubs),
        is_roster(roster, club.nickname + "_"@),
        is_founded_with(team, roster, club.name, club.region),
    ensures
        is_league_of(teams.push(team), players + roster, clubs.push(club)),
{
    let count = clubs.len() as int;
    let grown_teams = teams.push(team);
    let grown_players = players + roster;
    let grown_clubs = clubs.push(club);
    assert forall|at: int| 0 <= at < grown_clubs.len() implies #[trigger] roster_at(
        grown_players,
        at,
    ) == if at < count {
        roster_at(players, at)
    } else {
        roster
    } by {
        if at < count {
            assert(roster_at(grown_players, at) =~= roster_at(players, at));
        } else {
            assert(roster_at(grown_players, at) =~= roster);
        }
    }
    assert forall|at: int| 0 <= at < grown_clubs.len() implies is_roster(
        #[trigger] roster_at(grown_players, at),
        grown_clubs[at].nickname + "_"@,
    ) by {
        if at < count {
            assert(is_roster(roster_at(players, at), clubs[at].nickname + "_"@));
        }
    }
    assert forall|at: int| 0 <= at < grown_clubs.len() implies is_founded_with(
        #[trigger] grown_teams[at],
        roster_at(grown_players, at),
        grown_clubs[at].name,
        grown_clubs[at].region,
    ) by {
        if at < count {
            assert(is_founded_with(
                teams[at],
                roster_at(players, at),
                clubs[at].name,
                clubs[at].region,
            ));
        }
    }
}

/// A test that holds of every entry of a list picks out the whole list.
proof fn all_kept(clubs: Seq<ClubView>, keep: spec_fn(ClubView) -> bool)
    requires
        forall|i: int| 0 <= i < clubs.len() ==> keep(clubs[i]),
    ensures
        clubs.filter(keep) == clubs,
    decreases clubs.len(),
{
    reveal(Seq::filter);
    if clubs.len() > 0 {
        all_kept(clubs.drop_last(), keep);
        assert(clubs.drop_last().push(clubs.last()) =~= clubs);
    }
}

} // verus!
