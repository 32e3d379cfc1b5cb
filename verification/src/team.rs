//! Teams: who belongs to them, who starts, and how results change them.

use crate::identity::{
    contains_id, fresh_id, is_random_uuid, other_than, without, without_id,
};
use crate::player::AgentRole;
use vstd::prelude::*;
use vstd::string::*;

verus! {

/// Number of players in a full starting lineup.
pub const LINEUP_SIZE: usize = 5;

/// Cohesion a new team starts with.
pub const STARTING_COHESION: u8 = 10;

/// Highest cohesion.
pub const MAX_COHESION: u8 = 20;

/// Lowest cohesion.
pub const MIN_COHESION: u8 = 1;

/// A team: its members and its starting lineup, by player id, and its record.
#[derive(Debug, Clone)]
pub struct Team {
    pub id: u128,
    pub name: String,
    pub players: Vec<u128>,
    pub starting_lineup: Vec<u128>,
    pub coach: Option<String>,
    pub region: String,
    pub championship_points: u32,
    pub wins: u32,
    pub losses: u32,
    pub team_cohesion: u8,
}

/// What a `Team` holds, as plain values.
pub struct TeamView {
    pub id: u128,
    pub name: Seq<char>,
    pub players: Seq<u128>,
    pub starting_lineup: Seq<u128>,
    pub coach: Option<Seq<char>>,
    pub region: Seq<char>,
    pub championship_points: u32,
    pub wins: u32,
    pub losses: u32,
    pub team_cohesion: u8,
}

impl View for Team {
    type V = TeamView;

    open spec fn view(&self) -> TeamView {
        TeamView {
            id: self.id,
            name: self.name@,
            players: self.players@,
            starting_lineup: self.starting_lineup@,
            coach: match self.coach {
                Some(coach) => Some(coach@),
                None => None,
            },
            region: self.region@,
            championship_points: self.championship_points,
            wins: self.wins,
            losses: self.losses,
            team_cohesion: self.team_cohesion,
        }
    }
}

/// Whether every entry of `lineup` is one of `members`.
pub open spec fn all_members(lineup: Seq<u128>, members: Seq<u128>) -> bool {
    forall|i: int| 0 <= i < lineup.len() ==> members.contains(#[trigger] lineup[i])
}

impl TeamView {
    /// A team without members and without a record.
    pub open spec fn founded(id: u128, name: Seq<char>, region: Seq<char>) -> TeamView {
        TeamView {
            id,
            name,
            players: Seq::empty(),
            starting_lineup: Seq::empty(),
            coach: None,
            region,
            championship_points: 0,
            wins: 0,
            losses: 0,
            team_cohesion: STARTING_COHESION,
        }
    }

    /// Whether the starting lineup holds members only, and no more than five.
    pub open spec fn well_formed(self) -> bool {
        &&& all_members(self.starting_lineup, self.players)
        &&& self.starting_lineup.len() <= LINEUP_SIZE
    }

    /// The team after `player_id` joins: unchanged if it is a member already;
    /// otherwise it is the last member, and the last starter too while the
    /// lineup has room.
    pub open spec fn with_player(self, player_id: u128) -> TeamView {
        if self.players.contains(player_id) {
            self
        } else {
            TeamView {
                players: self.players.push(player_id),
                starting_lineup: if self.starting_lineup.len() < LINEUP_SIZE {
                    self.starting_lineup.push(player_id)
                } else {
                    self.starting_lineup
                },
                ..self
            }
        }
    }

    /// The team after `player_ids` join one after the other.
    pub open spec fn with_players(self, player_ids: Seq<u128>) -> TeamView
        decreases player_ids.len(),
    {
        if player_ids.len() == 0 {
            self
        } else {
            self.with_players(player_ids.drop_last()).with_player(player_ids.last())
        }
    }

    /// The team after `player_id` leaves: gone from the members and from the lineup.
    pub open spec fn without_player(self, player_id: u128) -> TeamView {
        TeamView {
            players: without(self.players, player_id),
            starting_lineup: without(self.starting_lineup, player_id),
            ..self
        }
    }

    /// Where a player lands among the starters who is dropped at
    /// `target_pos` of a lineup that has `remaining` entries without that
    /// player. The target counts the player too where the drag began at a
    /// starter's place before it; and nobody lands behind the end.
    pub open spec fn landing_position(
        was_starter: bool,
        origin: Option<(bool, usize)>,
        target_pos: usize,
        remaining: nat,
    ) -> int {
        let adjusted: int = if was_starter && origin is Some && origin->Some_0.0
            && origin->Some_0.1 < target_pos {
            target_pos - 1
        } else {
            target_pos as int
        };
        if adjusted <= remaining {
            adjusted
        } else {
            remaining as int
        }
    }

    /// The team after `player_id` has been dragged from `origin` and dropped
    /// at `target_pos` of the starters, or on the bench: the player leaves
    /// the place held among the starters, and takes the place of the drop.
    pub open spec fn with_player_moved(
        self,
        player_id: u128,
        target_is_starters: bool,
        target_pos: usize,
        origin: Option<(bool, usize)>,
    ) -> TeamView {
        let rest = without(self.starting_lineup, player_id);
        TeamView {
            starting_lineup: if target_is_starters {
                rest.insert(
                    TeamView::landing_position(
                        self.starting_lineup.contains(player_id),
                        origin,
                        target_pos,
                        rest.len(),
                    ),
                    player_id,
                )
            } else {
                rest
            },
            ..self
        }
    }

    /// The team after `player_id` has been put back where the drag began:
    /// at the old place among the starters, as far as the lineup
    /// reaches, or on the bench. A drag without a known origin changes nothing.
    pub open spec fn with_player_restored(
        self,
        player_id: u128,
        origin: Option<(bool, usize)>,
    ) -> TeamView {
        match origin {
            Some((true, position)) => self.with_player_moved(player_id, true, position, None),
            Some((false, _)) => self.with_player_moved(player_id, false, 0, None),
            None => self,
        }
    }

    /// Whether `lineup` may replace the starting lineup: five entries, all members.
    pub open spec fn accepts_lineup(self, lineup: Seq<u128>) -> bool {
        lineup.len() == LINEUP_SIZE && all_members(lineup, self.players)
    }

    /// The team after a match: one more win and one more point of cohesion,
    /// or one more loss and one point less, the cohesion staying within its bounds.
    pub open spec fn after_match(self, won: bool) -> TeamView {
        if won {
            TeamView {
                wins: (self.wins + 1) as u32,
                team_cohesion: self.raised_cohesion(),
                ..self
            }
        } else {
            TeamView {
                losses: (self.losses + 1) as u32,
                team_cohesion: self.lowered_cohesion(),
                ..self
            }
        }
    }

    /// The cohesion one point up, but not above the highest.
    pub open spec fn raised_cohesion(self) -> u8 {
        if self.team_cohesion < MAX_COHESION {
            (self.team_cohesion + 1) as u8
        } else {
            self.team_cohesion
        }
    }

    /// The cohesion one point down, but not below the lowest.
    pub open spec fn lowered_cohesion(self) -> u8 {
        if self.team_cohesion > MIN_COHESION {
            (self.team_cohesion - 1) as u8
        } else {
            self.team_cohesion
        }
    }

    /// Matches played.
    pub open spec fn played(self) -> int {
        self.wins + self.losses
    }
}

impl Team {
    /// Founds a team in the Americas, with a random id.
    pub fn new(name: String) -> (team: Self)
        ensures
            team@ == TeamView::founded(team.id, name@, "Americas"@),
            team@.well_formed(),
            is_random_uuid(team.id),
    {
        Team::new_in_region(name, String::from_str("Americas"))
    }

    /// Founds a team in `region`, with a random id.
    pub fn new_in_region(name: String, region: String) -> (team: Self)
        ensures
            team@ == TeamView::founded(team.id, name@, region@),
            team@.well_formed(),
            is_random_uuid(team.id),
    {
        Team {
            id: fresh_id(),
            name,
            players: Vec::new(),
            starting_lineup: Vec::new(),
            coach: None,
            region,
            championship_points: 0,
            wins: 0,
            losses: 0,
            team_cohesion: STARTING_COHESION,
        }
    }

    /// Takes `player_id` in as a member, and as a starter while the lineup
    /// has room; a member already is not added again.
    pub fn add_player(&mut self, player_id: u128)
        ensures
            final(self)@ == old(self)@.with_player(player_id),
            old(self)@.well_formed() ==> final(self)@.well_formed(),
    {
        if !contains_id(&self.players, player_id) {
            self.players.push(player_id);
            if self.starting_lineup.len() < LINEUP_SIZE {
                self.starting_lineup.push(player_id);
            }
            proof {
                let before = old(self)@;
                let after = self@;
                if before.well_formed() {
                    assert forall|i: int| 0 <= i < after.starting_lineup.len() implies
                        after.players.contains(#[trigger] after.starting_lineup[i]) by {
                        if i < before.starting_lineup.len() {
                            let k = choose|k: int|
                                0 <= k < before.players.len() && before.players[k]
                                    == before.starting_lineup[i];
                            assert(after.players[k] == after.starting_lineup[i]);
                        } else {
                            assert(after.players[before.players.len() as int] == player_id);
                        }
                    }
                }
            }
        }
    }

    /// Lets `player_id` go, from the members and from the lineup.
    pub fn remove_player(&mut self, player_id: u128)
        ensures
            final(self)@ == old(self)@.without_player(player_id),
            old(self)@.well_formed() ==> final(self)@.well_formed(),
    {
        self.players = without_id(&self.players, player_id);
        self.starting_lineup = without_id(&self.starting_lineup, player_id);
        proof {
            if old(self)@.well_formed() {
                removal_keeps_lineup_within_members(old(self)@, player_id);
            }
        }
    }

    /// Replaces the starting lineup by `lineup` if that has five entries, all
    /// of them members; otherwise the team stays as it is.
    pub fn set_starting_lineup(&mut self, lineup: Vec<u128>)
        ensures
            final(self)@ == if old(self)@.accepts_lineup(lineup@) {
                TeamView { starting_lineup: lineup@, ..old(self)@ }
            } else {
                old(self)@
            },
            old(self)@.well_formed() ==> final(self)@.well_formed(),
    {
        if lineup.len() == LINEUP_SIZE && self.has_all(&lineup) {
            self.starting_lineup = lineup;
        }
    }

    /// Whether every entry of `candidates` is a member.
    pub fn has_all(&self, candidates: &Vec<u128>) -> (all: bool)
        ensures
            all == all_members(candidates@, self@.players),
    {
        let mut index: usize = 0;
        while index < candidates.len()
            invariant
                index <= candidates@.len(),
                forall|i: int| 0 <= i < index ==> self.players@.contains(#[trigger] candidates@[i]),
            decreases candidates@.len() - index,
        {
            if !contains_id(&self.players, candidates[index]) {
                return false;
            }
            index = index + 1;
        }
        true
    }

    /// Moves `player_id` to the place of the drop: to `target_pos` among the
    /// starters, or to the bench. `origin` says where the drag began, among
    /// the starters or not and at which position.
    pub fn move_player(
        &mut self,
        player_id: u128,
        target_is_starters: bool,
        target_pos: usize,
        origin: Option<(bool, usize)>,
    )
        ensures
            final(self)@ == old(self)@.with_player_moved(
                player_id,
                target_is_starters,
                target_pos,
                origin,
            ),
            old(self)@.players.contains(player_id) && all_members(
                old(self)@.starting_lineup,
                old(self)@.players,
            ) ==> all_members(final(self)@.starting_lineup, final(self)@.players),
    {
        let was_starter: bool = contains_id(&self.starting_lineup, player_id);
        self.starting_lineup = without_id(&self.starting_lineup, player_id);
        if target_is_starters {
            let adjusted: usize = match origin {
                Some((origin_is_starters, origin_pos)) => {
                    if was_starter && origin_is_starters && origin_pos < target_pos {
                        target_pos - 1
                    } else {
                        target_pos
                    }
                },
                None => target_pos,
            };
            let position: usize = if adjusted <= self.starting_lineup.len() {
                adjusted
            } else {
                self.starting_lineup.len()
            };
            self.starting_lineup.insert(position, player_id);
        }
        proof {
            if old(self)@.players.contains(player_id) && all_members(
                old(self)@.starting_lineup,
                old(self)@.players,
            ) {
                moving_keeps_lineup_within_members(
                    old(self)@,
                    player_id,
                    target_is_starters,
                    target_pos,
                    origin,
                );
            }
        }
    }

    /// Puts `player_id` back where the drag began: at the old place among
    /// the starters, as far as the lineup reaches, or on the bench.
    pub fn restore_player(&mut self, player_id: u128, origin: Option<(bool, usize)>)
        ensures
            final(self)@ == old(self)@.with_player_restored(player_id, origin),
    {
        match origin {
            Some((origin_is_starters, origin_pos)) => {
                if origin_is_starters {
                    self.move_player(player_id, true, origin_pos, None);
                } else {
                    self.move_player(player_id, false, 0, None);
                }
            },
            None => {},
        }
    }

    /// The share of matches won, as a fraction: wins over matches played,
    /// and 0 over 1 before the first match.
    pub fn win_ratio(&self) -> (ratio: (u32, u64))
        ensures
            ratio.1 > 0,
            self@.played() == 0 ==> ratio == (0u32, 1u64),
            self@.played() > 0 ==> ratio.0 == self.wins && ratio.1 == self@.played(),
    {
        let played: u64 = self.wins as u64 + self.losses as u64;
        if played == 0 {
            (0, 1)
        } else {
            (self.wins, played)
        }
    }

    /// Books a match: a win raises the cohesion, a loss lowers it.
    pub fn record_match_result(&mut self, won: bool)
        requires
            won ==> old(self).wins < u32::MAX,
            !won ==> old(self).losses < u32::MAX,
        ensures
            final(self)@ == old(self)@.after_match(won),
    {
        if won {
            self.wins = self.wins + 1;
            self.improve_cohesion();
        } else {
            self.losses = self.losses + 1;
            self.decrease_cohesion();
        }
    }

    /// Raises the cohesion by one point, but not above the highest.
    pub fn improve_cohesion(&mut self)
        ensures
            final(self)@ == (TeamView {
                team_cohesion: old(self)@.raised_cohesion(),
                ..old(self)@
            }),
    {
        if self.team_cohesion < MAX_COHESION {
            self.team_cohesion = self.team_cohesion + 1;
        }
    }

    /// Lowers the cohesion by one point, but not below the lowest.
    pub fn decrease_cohesion(&mut self)
        ensures
            final(self)@ == (TeamView {
                team_cohesion: old(self)@.lowered_cohesion(),
                ..old(self)@
            }),
    {
        if self.team_cohesion > MIN_COHESION {
            self.team_cohesion = self.team_cohesion - 1;
        }
    }

    pub fn add_championship_points(&mut self, points: u32)
        requires
            old(self).championship_points + points <= u32::MAX,
        ensures
            final(self)@ == (TeamView {
                championship_points: (old(self).championship_points + points) as u32,
                ..old(self)@
            }),
    {
        self.championship_points = self.championship_points + points;
    }
}

/// Players who join change the members and the lineup, and nothing else;
/// and a team whose lineup holds members only, and no more than five, still
/// is such a team after they have joined.
pub proof fn joining_keeps_the_rest(team: TeamView, player_ids: Seq<u128>)
    ensures
        team.with_players(player_ids) == (TeamView {
            players: team.with_players(player_ids).players,
            starting_lineup: team.with_players(player_ids).starting_lineup,
            ..team
        }),
        team.well_formed() ==> team.with_players(player_ids).well_formed(),
    decreases player_ids.len(),
{
    if player_ids.len() > 0 {
        joining_keeps_the_rest(team, player_ids.drop_last());
        let before = team.with_players(player_ids.drop_last());
        let after = before.with_player(player_ids.last());
        if team.well_formed() && !before.players.contains(player_ids.last()) {
            assert forall|i: int| 0 <= i < after.starting_lineup.len() implies
                after.players.contains(#[trigger] after.starting_lineup[i]) by {
                if i < before.starting_lineup.len() {
                    let k = choose|k: int|
                        0 <= k < before.players.len() && before.players[k]
                            == before.starting_lineup[i];
                    assert(after.players[k] == after.starting_lineup[i]);
                } else {
                    assert(after.players[before.players.len() as int] == player_ids.last());
                }
            }
        }
    }
}

/// Up to five players who are all different and join a team without
/// members are its members and its starters afterwards, in the order in
/// which they joined.
pub proof fn distinct_players_all_join(team: TeamView, player_ids: Seq<u128>)
    requires
        team.players.len() == 0,
        team.starting_lineup.len() == 0,
        player_ids.no_duplicates(),
        player_ids.len() <= LINEUP_SIZE,
    ensures
        team.with_players(player_ids).players == player_ids,
        team.with_players(player_ids).starting_lineup == player_ids,
    decreases player_ids.len(),
{
    if player_ids.len() == 0 {
        assert(team.players =~= player_ids);
        assert(team.starting_lineup =~= player_ids);
    } else {
        let earlier = player_ids.drop_last();
        distinct_players_all_join(team, earlier);
        let before = team.with_players(earlier);
        assert(!before.players.contains(player_ids.last())) by {
            if before.players.contains(player_ids.last()) {
                let k = choose|k: int| 0 <= k < earlier.len() && earlier[k] == player_ids.last();
                assert(player_ids[k] == player_ids[player_ids.len() - 1]);
            }
        }
        assert(earlier.push(player_ids.last()) =~= player_ids);
    }
}

/// A cohesion between the lowest and the highest stays there whatever the
/// result of a match, and moves by one point at most.
pub proof fn cohesion_stays_within_bounds(team: TeamView, won: bool)
    requires
        MIN_COHESION <= team.team_cohesion <= MAX_COHESION,
    ensures
        MIN_COHESION <= team.after_match(won).team_cohesion <= MAX_COHESION,
        team.after_match(won).team_cohesion - team.team_cohesion == if won {
            if team.team_cohesion < MAX_COHESION {
                1int
            } else {
                0int
            }
        } else {
            if team.team_cohesion > MIN_COHESION {
                -1int
            } else {
                0int
            }
        },
{
}

/// A lineup that the team accepts makes the team well formed, whatever it
/// was before.
pub proof fn accepted_lineup_is_well_formed(team: TeamView, lineup: Seq<u128>)
    requires
        team.accepts_lineup(lineup),
    ensures
        (TeamView { starting_lineup: lineup, ..team }).well_formed(),
{
}

/// A member who is moved within the team leaves the lineup within the members.
pub proof fn moving_keeps_lineup_within_members(
    team: TeamView,
    player_id: u128,
    target_is_starters: bool,
    target_pos: usize,
    origin: Option<(bool, usize)>,
)
    requires
        team.players.contains(player_id),
        all_members(team.starting_lineup, team.players),
    ensures
        all_members(
            team.with_player_moved(
                player_id,
                target_is_starters,
                target_pos,
                origin,
            ).starting_lineup,
            team.players,
        ),
{
    let keep = other_than(player_id);
    let rest = without(team.starting_lineup, player_id);
    let after = team.with_player_moved(player_id, target_is_starters, target_pos, origin);
    assert forall|i: int| 0 <= i < rest.len() implies team.players.contains(#[trigger] rest[i]) by {
        team.starting_lineup.lemma_filter_contains_rev(keep, rest[i]);
        assert(rest.contains(rest[i]));
        let k = choose|k: int|
            0 <= k < team.starting_lineup.len() && team.starting_lineup[k] == rest[i];
        assert(team.players.contains(team.starting_lineup[k]));
    }
    if target_is_starters {
        let at = TeamView::landing_position(
            team.starting_lineup.contains(player_id),
            origin,
            target_pos,
            rest.len(),
        );
        assert forall|i: int| 0 <= i < after.starting_lineup.len() implies team.players.contains(
            #[trigger] after.starting_lineup[i],
        ) by {
            if i < at {
                assert(after.starting_lineup[i] == rest[i]);
            } else if i == at {
                assert(after.starting_lineup[i] == player_id);
            } else {
                assert(after.starting_lineup[i] == rest[i - 1]);
            }
        }
    }
}

/// A team whose lineup holds members only still does after a player has left.
pub proof fn removal_keeps_lineup_within_members(team: TeamView, player_id: u128)
    requires
        team.well_formed(),
    ensures
        team.without_player(player_id).well_formed(),
{
    let keep = other_than(player_id);
    let after = team.without_player(player_id);
    team.starting_lineup.lemma_filter_len(keep);
    assert forall|i: int| 0 <= i < after.starting_lineup.len() implies after.players.contains(
        #[trigger] after.starting_lineup[i],
    ) by {
        let id = after.starting_lineup[i];
        team.starting_lineup.lemma_filter_pred(keep, i);
        team.starting_lineup.lemma_filter_contains_rev(keep, id);
        assert(team.starting_lineup.filter(keep).contains(id));
        assert(team.starting_lineup.contains(id));
        let k = choose|k: int| 0 <= k < team.starting_lineup.len() && team.starting_lineup[k] == id;
        assert(team.players.contains(team.starting_lineup[k]));
        let m = choose|m: int| 0 <= m < team.players.len() && team.players[m] == id;
        team.players.lemma_filter_contains(keep, m);
    }
}

/// How many agents of each role a lineup fields.
#[derive(Debug, Clone, Copy)]
pub struct TeamComposition {
    pub duelist_count: u8,
    pub initiator_count: u8,
    pub controller_count: u8,
    pub sentinel_count: u8,
}

impl TeamComposition {
    /// The number of agents of `role`.
    pub open spec fn count_of(self, role: AgentRole) -> u8 {
        match role {
            AgentRole::Duelist => self.duelist_count,
            AgentRole::Initiator => self.initiator_count,
            AgentRole::Controller => self.controller_count,
            AgentRole::Sentinel => self.sentinel_count,
        }
    }

    /// The number of agents in all.
    pub open spec fn size(self) -> int {
        self.duelist_count + self.initiator_count + self.controller_count + self.sentinel_count
    }

    /// Whether the composition is balanced: five agents, one or two of them
    /// duelists, and at least one of each other role.
    pub open spec fn balanced(self) -> bool {
        &&& 1 <= self.duelist_count <= 2
        &&& self.initiator_count >= 1
        &&& self.controller_count >= 1
        &&& self.sentinel_count >= 1
        &&& self.size() == 5
    }

    pub fn new() -> (composition: Self)
        ensures
            composition == (TeamComposition {
                duelist_count: 0,
                initiator_count: 0,
                controller_count: 0,
                sentinel_count: 0,
            }),
    {
        TeamComposition {
            duelist_count: 0,
            initiator_count: 0,
            controller_count: 0,
            sentinel_count: 0,
        }
    }

    /// Counts one more agent of `role`.
    pub fn add_role(&mut self, role: AgentRole)
        requires
            old(self).count_of(role) < u8::MAX,
        ensures
            final(self).count_of(role) == old(self).count_of(role) + 1,
            forall|other: AgentRole|
                other != role ==> final(self).count_of(other) == old(self).count_of(other),
    {
        match role {
            AgentRole::Duelist => {
                self.duelist_count = self.duelist_count + 1;
            },
            AgentRole::Initiator => {
                self.initiator_count = self.initiator_count + 1;
            },
            AgentRole::Controller => {
                self.controller_count = self.controller_count + 1;
            },
            AgentRole::Sentinel => {
                self.sentinel_count = self.sentinel_count + 1;
            },
        }
    }

    pub fn is_balanced(&self) -> (balanced: bool)
        ensures
            balanced == self.balanced(),
    {
        let size: u32 = self.duelist_count as u32 + self.initiator_count as u32
            + self.controller_count as u32 + self.sentinel_count as u32;
        self.duelist_count >= 1 && self.duelist_count <= 2 && self.initiator_count >= 1
            && self.controller_count >= 1 && self.sentinel_count >= 1 && size == 5
    }
}

} // verus!
