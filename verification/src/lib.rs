//! Season simulation core of an esports management game.
//!
//! Players are generated with bounded ratings, teams keep a roster and a
//! starting lineup, clubs keep books, a side buys for each round out of its
//! credits, and the season moves through its events week by week while the
//! standings decide who qualifies. Every rule is stated as a contract on the
//! function that applies it.

pub mod calendar;
mod chance;
pub mod economy;
pub mod game;
pub mod identity;
pub mod league;
pub mod match_simulation;
pub mod names;
pub mod player;
pub mod scouting;
pub mod team;
pub mod tournament;

pub use crate::calendar::GameDate;
pub use crate::economy::{BuyPhase, RoundEconomy, TeamFinances};
pub use crate::game::GameState;
pub use crate::match_simulation::{MatchResult, MatchType};
pub use crate::player::{
    AgentProficiency, AgentRole, Morale, Player, PlayerAttributes, PlayerDraw,
};
pub use crate::scouting::ScoutingDesk;
pub use crate::team::{Team, TeamComposition};
pub use crate::tournament::{ChampionshipStanding, Match, TournamentState, VCTEvent};
