//! Scouting: paying for a look at the market, and signing whom it shows.

use crate::chance::draw_between;
use crate::game::{player_ids, player_views, GameState};
use crate::identity::{first_index_of, first_index_of_found, first_index_of_is_first};
use crate::names::{scout_name, scout_name_for};
use crate::player::{Player, PlayerView};
use vstd::prelude::*;

verus! {

/// What one round of scouting costs.
pub const SCOUTING_FEE: i64 = 10_000;

/// The scouting budget a desk starts with.
pub const STARTING_SCOUTING_BUDGET: i64 = 50_000;

/// The fewest players a round of scouting finds.
pub const FEWEST_SCOUTED: u32 = 3;

/// The most players a round of scouting finds.
pub const MOST_SCOUTED: u32 = 5;

/// The scouts' desk: the players they have found, and what is left to pay them with.
#[derive(Debug, Clone)]
pub struct ScoutingDesk {
    pub scouted_players: Vec<Player>,
    pub scouting_budget: i64,
}

/// What a `ScoutingDesk` holds, as plain values.
pub struct ScoutingView {
    pub scouted_players: Seq<PlayerView>,
    pub scouting_budget: i64,
}

impl View for ScoutingDesk {
    type V = ScoutingView;

    open spec fn view(&self) -> ScoutingView {
        ScoutingView {
            scouted_players: player_views(self.scouted_players@),
            scouting_budget: self.scouting_budget,
        }
    }
}

/// Whether `player` is a player as the scouts find one for `slot`, the slots
/// counted from 0: a new player, named after the slot and a number from 100 to 998.
pub open spec fn is_scouted(player: PlayerView, slot: int) -> bool {
    exists|number: int|
        100 <= number <= 998 && #[trigger] player.is_recruit(scout_name(slot, number))
}

impl ScoutingView {
    /// Whether the desk can pay for a round of scouting.
    pub open spec fn can_scout(self) -> bool {
        self.scouting_budget >= SCOUTING_FEE
    }

    /// Whether `self` is what a round of scouting makes of `before`: the fee
    /// is paid, and the list holds three to five new players and none from
    /// before; or nothing has changed, where the fee could not be paid.
    pub open spec fn is_scouted_from(self, before: ScoutingView) -> bool {
        if before.can_scout() {
            &&& self.scouting_budget == before.scouting_budget - SCOUTING_FEE
            &&& FEWEST_SCOUTED <= self.scouted_players.len() <= MOST_SCOUTED
            &&& forall|slot: int|
                0 <= slot < self.scouted_players.len() ==> is_scouted(
                    #[trigger] self.scouted_players[slot],
                    slot,
                )
        } else {
            self == before
        }
    }

    /// The position of the first scouted player with `id`, and the number of
    /// scouted players where there is none.
    pub open spec fn position_of(self, id: u128) -> int {
        first_index_of(player_ids(self.scouted_players), id)
    }

    /// The desk after the player with `id` has been picked for signing: the
    /// player is off the list, whether or not the signing comes about.
    pub open spec fn after_pick(self, id: u128) -> ScoutingView {
        if self.position_of(id) < self.scouted_players.len() {
            ScoutingView {
                scouted_players: self.scouted_players.remove(self.position_of(id)),
                ..self
            }
        } else {
            self
        }
    }
}

impl ScoutingDesk {
    pub fn new() -> (desk: Self)
        ensures
            desk@ == (ScoutingView {
                scouted_players: Seq::empty(),
                scouting_budget: STARTING_SCOUTING_BUDGET,
            }),
    {
        let desk = ScoutingDesk {
            scouted_players: Vec::new(),
            scouting_budget: STARTING_SCOUTING_BUDGET,
        };
        assert(desk@.scouted_players =~= Seq::empty());
        desk
    }

    /// Pays the fee for a round of scouting and replaces the list by what
    /// the scouts find: three to five new players. Says whether the fee could
    /// be paid; where it could not, nothing changes.
    pub fn scout_new_players(&mut self) -> (scouted: bool)
        ensures
            scouted == old(self)@.can_scout(),
            final(self)@.is_scouted_from(old(self)@),
    {
        if self.scouting_budget >= SCOUTING_FEE {
            self.scouting_budget = self.scouting_budget - SCOUTING_FEE;
            self.scouted_players = Vec::new();
            let found: u32 = draw_between(FEWEST_SCOUTED, MOST_SCOUTED);
            let mut slot: u32 = 0;
            while slot < found
                invariant
                    slot <= found <= MOST_SCOUTED,
                    self.scouting_budget == old(self).scouting_budget - SCOUTING_FEE,
                    self@.scouted_players.len() == slot,
                    forall|k: int|
                        0 <= k < slot ==> is_scouted(#[trigger] self@.scouted_players[k], k),
                decreases found - slot,
            {
                let number: u32 = draw_between(100, 998);
                let player = Player::generate_random(scout_name_for(slot, number));
                let ghost before = self@.scouted_players;
                let ghost scouted = player@;
                self.scouted_players.push(player);
                proof {
                    assert(self@.scouted_players =~= before.push(scouted));
                    assert(scouted.is_recruit(scout_name(slot as int, number as int)));
                    assert(is_scouted(scouted, slot as int));
                }
                slot = slot + 1;
            }
            true
        } else {
            false
        }
    }

    /// The position of the first scouted player with `id`, and the number of
    /// scouted players where there is none.
    pub fn scouted_index(&self, id: u128) -> (at: usize)
        ensures
            at == self@.position_of(id),
            at <= self@.scouted_players.len(),
    {
        let ghost ids = player_ids(self@.scouted_players);
        let mut at: usize = 0;
        while at < self.scouted_players.len()
            invariant
                at <= self.scouted_players@.len(),
                ids == player_ids(self@.scouted_players),
                forall|j: int| 0 <= j < at ==> ids[j] != id,
            decreases self.scouted_players@.len() - at,
        {
            if self.scouted_players[at].id == id {
                proof {
                    first_index_of_found(ids, id, at as int);
                }
                return at;
            }
            at = at + 1;
        }
        proof {
            first_index_of_is_first(ids, id);
        }
        at
    }

    /// Takes the first scouted player with `player_id` off the list and
    /// signs that player for `game`, if its budget covers the market value. A player
    /// who cannot be paid for is off the list all the same. Says whether a
    /// player was signed.
    pub fn sign_player(&mut self, player_id: u128, game: &mut GameState) -> (signed: bool)
        requires
            old(self)@.position_of(player_id) < old(self)@.scouted_players.len() ==> old(
                game,
            ).budget - old(self)@.scouted_players[old(self)@.position_of(player_id)].market_value
                <= i64::MAX,
        ensures
            final(self)@ == old(self)@.after_pick(player_id),
            ({
                let at = old(self)@.position_of(player_id);
                if at < old(self)@.scouted_players.len() {
                    &&& signed == (old(game).budget >= old(self)@.scouted_players[at].market_value)
                    &&& final(game)@ == old(game)@.after_signing(old(self)@.scouted_players[at])
                } else {
                    &&& !signed
                    &&& final(game)@ == old(game)@
                }
            }),
    {
        let at = self.scouted_index(player_id);
        if at < self.scouted_players.len() {
            let ghost before = self.scouted_players@;
            let player = self.scouted_players.remove(at);
            assert(self@.scouted_players =~= player_views(before).remove(at as int));
            game.sign_player(player)
        } else {
            false
        }
    }
}

} // verus!
