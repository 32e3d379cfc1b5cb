//! Players: their attributes, roles, morale, and how a new player is made.

use crate::chance::{chance, roll_between};
use crate::identity::{fresh_id, is_random_uuid};
use vstd::prelude::*;
use vstd::string::*;

verus! {

/// The four roles an agent can play.
#[derive(Debug, Clone, Copy, PartialEq, Eq, Structural)]
pub enum AgentRole {
    Duelist,
    Initiator,
    Controller,
    Sentinel,
}

impl AgentRole {
    /// The role at a position of the fixed order Duelist, Initiator,
    /// Controller, Sentinel; every position past the third is Sentinel.
    pub open spec fn at(index: int) -> AgentRole {
        if index == 0 {
            AgentRole::Duelist
        } else if index == 1 {
            AgentRole::Initiator
        } else if index == 2 {
            AgentRole::Controller
        } else {
            AgentRole::Sentinel
        }
    }

    /// The position of a role in the fixed order.
    pub open spec fn index(self) -> int {
        match self {
            AgentRole::Duelist => 0,
            AgentRole::Initiator => 1,
            AgentRole::Controller => 2,
            AgentRole::Sentinel => 3,
        }
    }

    /// The three roles other than `self`, in the fixed order.
    pub open spec fn others(self) -> Seq<AgentRole> {
        match self {
            AgentRole::Duelist => seq![
                AgentRole::Initiator,
                AgentRole::Controller,
                AgentRole::Sentinel,
            ],
            AgentRole::Initiator => seq![
                AgentRole::Duelist,
                AgentRole::Controller,
                AgentRole::Sentinel,
            ],
            AgentRole::Controller => seq![
                AgentRole::Duelist,
                AgentRole::Initiator,
                AgentRole::Sentinel,
            ],
            AgentRole::Sentinel => seq![
                AgentRole::Duelist,
                AgentRole::Initiator,
                AgentRole::Controller,
            ],
        }
    }

    pub fn from_index(index: u8) -> (role: AgentRole)
        ensures
            role == AgentRole::at(index as int),
    {
        if index == 0 {
            AgentRole::Duelist
        } else if index == 1 {
            AgentRole::Initiator
        } else if index == 2 {
            AgentRole::Controller
        } else {
            AgentRole::Sentinel
        }
    }
}

/// A player's mood, on five levels from worst to best.
#[derive(Debug, Clone, Copy, PartialEq, Eq, Structural)]
pub enum Morale {
    Abysmal,
    Poor,
    Average,
    Good,
    Superb,
}

impl Morale {
    /// The level as a number, 1 for the worst and 5 for the best.
    pub open spec fn level(self) -> int {
        match self {
            Morale::Abysmal => 1,
            Morale::Poor => 2,
            Morale::Average => 3,
            Morale::Good => 4,
            Morale::Superb => 5,
        }
    }

    /// One level up; the best level stays.
    pub open spec fn raised(self) -> Morale {
        match self {
            Morale::Abysmal => Morale::Poor,
            Morale::Poor => Morale::Average,
            Morale::Average => Morale::Good,
            Morale::Good => Morale::Superb,
            Morale::Superb => Morale::Superb,
        }
    }

    /// One level down; the worst level stays.
    pub open spec fn lowered(self) -> Morale {
        match self {
            Morale::Abysmal => Morale::Abysmal,
            Morale::Poor => Morale::Abysmal,
            Morale::Average => Morale::Poor,
            Morale::Good => Morale::Average,
            Morale::Superb => Morale::Good,
        }
    }
}

/// Eleven ratings of a player, each meant to lie on a scale from 1 to 20.
#[derive(Debug, Clone, Copy)]
pub struct PlayerAttributes {
    pub aim: u8,
    pub utility_usage: u8,
    pub movement: u8,
    pub clutch_potential: u8,
    pub game_sense: u8,
    pub communication: u8,
    pub composure: u8,
    pub aggression: u8,
    pub adaptability: u8,
    pub stamina: u8,
    pub natural_fitness: u8,
}

/// Whether a rating lies on the scale from 1 to 20.
pub open spec fn on_scale(rating: u8) -> bool {
    1 <= rating <= 20
}

impl PlayerAttributes {
    /// The mean of the four technical ratings, rounded down.
    pub open spec fn technical_average(self) -> int {
        (self.aim + self.utility_usage + self.movement + self.clutch_potential) / 4
    }

    /// The mean of the five mental ratings, rounded down.
    pub open spec fn mental_average(self) -> int {
        (self.game_sense + self.communication + self.composure + self.aggression
            + self.adaptability) / 5
    }

    /// The mean of the two physical ratings, rounded down.
    pub open spec fn physical_average(self) -> int {
        (self.stamina + self.natural_fitness) / 2
    }

    /// The overall rating: the three means weighted 4, 5 and 1, over 10, rounded down.
    pub open spec fn rating(self) -> int {
        (self.technical_average() * 4 + self.mental_average() * 5 + self.physical_average() * 1)
            / 10
    }

    /// Whether every rating lies on the scale from 1 to 20.
    pub open spec fn all_on_scale(self) -> bool {
        &&& on_scale(self.aim)
        &&& on_scale(self.utility_usage)
        &&& on_scale(self.movement)
        &&& on_scale(self.clutch_potential)
        &&& on_scale(self.game_sense)
        &&& on_scale(self.communication)
        &&& on_scale(self.composure)
        &&& on_scale(self.aggression)
        &&& on_scale(self.adaptability)
        &&& on_scale(self.stamina)
        &&& on_scale(self.natural_fitness)
    }

    /// Whether every rating lies where a generated one does: the technical
    /// and mental ratings from 8 to 18, the physical ones from 10 to 18.
    pub open spec fn in_generated_range(self) -> bool {
        &&& 8 <= self.aim <= 18
        &&& 8 <= self.utility_usage <= 18
        &&& 8 <= self.movement <= 18
        &&& 8 <= self.clutch_potential <= 18
        &&& 8 <= self.game_sense <= 18
        &&& 8 <= self.communication <= 18
        &&& 8 <= self.composure <= 18
        &&& 8 <= self.aggression <= 18
        &&& 8 <= self.adaptability <= 18
        &&& 10 <= self.stamina <= 18
        &&& 10 <= self.natural_fitness <= 18
    }

    /// Draws each of the eleven ratings on its own.
    pub fn generate_random() -> (attributes: Self)
        ensures
            attributes.in_generated_range(),
            attributes.all_on_scale(),
            8 <= attributes.rating() <= 18,
    {
        PlayerAttributes {
            aim: roll_between(8, 18),
            utility_usage: roll_between(8, 18),
            movement: roll_between(8, 18),
            clutch_potential: roll_between(8, 18),
            game_sense: roll_between(8, 18),
            communication: roll_between(8, 18),
            composure: roll_between(8, 18),
            aggression: roll_between(8, 18),
            adaptability: roll_between(8, 18),
            stamina: roll_between(10, 18),
            natural_fitness: roll_between(10, 18),
        }
    }

    pub fn overall_rating(&self) -> (overall: u8)
        ensures
            overall == self.rating(),
    {
        let technical: u32 = (self.aim as u32 + self.utility_usage as u32 + self.movement as u32
            + self.clutch_potential as u32) / 4;
        let mental: u32 = (self.game_sense as u32 + self.communication as u32
            + self.composure as u32 + self.aggression as u32 + self.adaptability as u32) / 5;
        let physical: u32 = (self.stamina as u32 + self.natural_fitness as u32) / 2;
        ((technical * 4 + mental * 5 + physical * 1) / 10) as u8
    }
}

/// How well a player handles one role, on the scale from 1 to 20.
#[derive(Debug, Clone, Copy)]
pub struct AgentProficiency {
    pub role: AgentRole,
    pub proficiency: u8,
}

/// A player under contract or on the market.
#[derive(Debug, Clone)]
pub struct Player {
    pub id: u128,
    pub name: String,
    pub age: u8,
    pub nationality: String,
    pub attributes: PlayerAttributes,
    pub preferred_role: AgentRole,
    pub agent_proficiencies: Vec<AgentProficiency>,
    pub morale: Morale,
    pub contract_salary: i64,
    pub contract_length: u8,
    pub market_value: i64,
    pub training_happiness: i8,
}

/// What a `Player` holds, as plain values.
pub struct PlayerView {
    pub id: u128,
    pub name: Seq<char>,
    pub age: u8,
    pub nationality: Seq<char>,
    pub attributes: PlayerAttributes,
    pub preferred_role: AgentRole,
    pub agent_proficiencies: Seq<AgentProficiency>,
    pub morale: Morale,
    pub contract_salary: i64,
    pub contract_length: u8,
    pub market_value: i64,
    pub training_happiness: i8,
}

impl View for Player {
    type V = PlayerView;

    open spec fn view(&self) -> PlayerView {
        PlayerView {
            id: self.id,
            name: self.name@,
            age: self.age,
            nationality: self.nationality@,
            attributes: self.attributes,
            preferred_role: self.preferred_role,
            agent_proficiencies: self.agent_proficiencies@,
            morale: self.morale,
            contract_salary: self.contract_salary,
            contract_length: self.contract_length,
            market_value: self.market_value,
            training_happiness: self.training_happiness,
        }
    }
}

/// Everything about a new player that is left to chance.
#[derive(Debug, Clone, Copy)]
pub struct PlayerDraw {
    pub id: u128,
    /// Position of the preferred role in the fixed order of roles.
    pub role_index: u8,
    pub attributes: PlayerAttributes,
    pub age: u8,
    pub contract_length: u8,
    /// Proficiency in the preferred role.
    pub preferred_proficiency: u8,
    /// Proficiencies in the three other roles, in the fixed order of roles.
    pub other_proficiencies: [u8; 3],
}

impl PlayerDraw {
    /// Whether every part of the draw lies where `random` draws it from.
    pub open spec fn in_range(self) -> bool {
        &&& is_random_uuid(self.id)
        &&& self.role_index < 4
        &&& self.attributes.in_generated_range()
        &&& 18 <= self.age <= 28
        &&& 1 <= self.contract_length <= 4
        &&& 14 <= self.preferred_proficiency <= 18
        &&& forall|i: int| 0 <= i < 3 ==> 6 <= #[trigger] self.other_proficiencies@[i] <= 14
    }

    /// Draws a new player's identity, role, ratings, age, proficiencies and
    /// contract length, each on its own.
    pub fn random() -> (draw: Self)
        ensures
            draw.in_range(),
    {
        let role_index: u8 = roll_between(0, 3);
        let attributes = PlayerAttributes::generate_random();
        let id: u128 = fresh_id();
        let age: u8 = roll_between(18, 28);
        let preferred_proficiency: u8 = roll_between(14, 18);
        let first: u8 = roll_between(6, 14);
        let second: u8 = roll_between(6, 14);
        let third: u8 = roll_between(6, 14);
        let contract_length: u8 = roll_between(1, 4);
        PlayerDraw {
            id,
            role_index,
            attributes,
            age,
            contract_length,
            preferred_proficiency,
            other_proficiencies: [first, second, third],
        }
    }
}

/// The market value that belongs to an overall rating. Below a rating of 7
/// it is negative.
pub open spec fn market_value_of(rating: int) -> int {
    50_000 + (rating - 8) * 45_000
}

/// The yearly salary that belongs to a market value: a fifth of it.
pub open spec fn salary_of(market_value: int) -> int {
    if market_value >= 0 {
        market_value / 5
    } else {
        -((-market_value) / 5)
    }
}

/// The proficiencies of a player: first the preferred role with its value,
/// then the three other roles in the fixed order, each with its value.
pub open spec fn proficiencies_of(
    preferred: AgentRole,
    preferred_value: u8,
    other_values: Seq<u8>,
) -> Seq<AgentProficiency> {
    seq![
        AgentProficiency { role: preferred, proficiency: preferred_value },
        AgentProficiency { role: preferred.others()[0], proficiency: other_values[0] },
        AgentProficiency { role: preferred.others()[1], proficiency: other_values[1] },
        AgentProficiency { role: preferred.others()[2], proficiency: other_values[2] },
    ]
}

/// The proficiency in `role` that a list of proficiencies gives: that of the
/// first entry for the role, and 5 where the list has none.
pub open spec fn proficiency_in(entries: Seq<AgentProficiency>, role: AgentRole) -> u8
    decreases entries.len(),
{
    if entries.len() == 0 {
        5
    } else if entries[0].role == role {
        entries[0].proficiency
    } else {
        proficiency_in(entries.drop_first(), role)
    }
}

impl PlayerView {
    /// The player that `draw` makes under `name`.
    pub open spec fn from_draw(name: Seq<char>, draw: PlayerDraw) -> PlayerView {
        let market_value = market_value_of(draw.attributes.rating());
        PlayerView {
            id: draw.id,
            name,
            age: draw.age,
            nationality: "USA"@,
            attributes: draw.attributes,
            preferred_role: AgentRole::at(draw.role_index as int),
            agent_proficiencies: proficiencies_of(
                AgentRole::at(draw.role_index as int),
                draw.preferred_proficiency,
                draw.other_proficiencies@,
            ),
            morale: Morale::Average,
            contract_salary: salary_of(market_value) as i64,
            contract_length: draw.contract_length,
            market_value: market_value as i64,
            training_happiness: 0,
        }
    }

    /// Whether this is a player as `Player::new` makes one under `name`:
    /// made by a draw in which every part lies in its range.
    pub open spec fn is_recruit(self, name: Seq<char>) -> bool {
        &&& self.name == name
        &&& self.nationality == "USA"@
        &&& is_random_uuid(self.id)
        &&& 18 <= self.age <= 28
        &&& self.attributes.in_generated_range()
        &&& self.morale == Morale::Average
        &&& self.training_happiness == 0
        &&& 1 <= self.contract_length <= 4
        &&& self.market_value == market_value_of(self.attributes.rating())
        &&& self.contract_salary * 5 == self.market_value
        &&& self.agent_proficiencies.len() == 4
        &&& self.agent_proficiencies[0].role == self.preferred_role
        &&& 14 <= self.agent_proficiencies[0].proficiency <= 18
        &&& forall|i: int|
            1 <= i < 4 ==> {
                &&& (#[trigger] self.agent_proficiencies[i]).role == self.preferred_role.others()[i
                    - 1]
                &&& 6 <= self.agent_proficiencies[i].proficiency <= 14
            }
    }
}

impl Player {
    /// Makes a player under `name`, with everything else left to chance.
    pub fn new(name: String) -> (player: Self)
        ensures
            player@.is_recruit(name@),
            player.attributes.all_on_scale(),
            1 <= player.attributes.rating() <= 20,
    {
        let draw = PlayerDraw::random();
        Player::from_draw(name, &draw)
    }

    /// Makes a player under `name`, with everything else left to chance.
    pub fn generate_random(name: String) -> (player: Self)
        ensures
            player@.is_recruit(name@),
            player.attributes.all_on_scale(),
            1 <= player.attributes.rating() <= 20,
    {
        Player::new(name)
    }

    /// Makes the player that `draw` describes: the market value follows from
    /// the ratings, the salary from the market value, and the player starts
    /// with average morale.
    pub fn from_draw(name: String, draw: &PlayerDraw) -> (player: Self)
        ensures
            player@ == PlayerView::from_draw(name@, *draw),
            draw.in_range() ==> player@.is_recruit(name@),
    {
        let preferred_role = AgentRole::from_index(draw.role_index);
        let market_value: i64 = Player::calculate_market_value(&draw.attributes);
        let agent_proficiencies = Player::proficiencies_from_rolls(
            preferred_role,
            draw.preferred_proficiency,
            &draw.other_proficiencies,
        );
        let player = Player {
            id: draw.id,
            name,
            age: draw.age,
            nationality: String::from_str("USA"),
            attributes: draw.attributes,
            preferred_role,
            agent_proficiencies,
            morale: Morale::Average,
            contract_salary: market_value / 5,
            contract_length: draw.contract_length,
            market_value,
            training_happiness: 0,
        };
        player
    }

    /// The market value that the ratings give.
    pub fn calculate_market_value(attributes: &PlayerAttributes) -> (value: i64)
        ensures
            value == market_value_of(attributes.rating()),
    {
        let overall: i64 = attributes.overall_rating() as i64;
        50_000 + (overall - 8) * 45_000
    }

    /// Lists the proficiencies: the preferred role first, then each other
    /// role in the fixed order with the next of `other_values`.
    pub fn proficiencies_from_rolls(
        preferred_role: AgentRole,
        preferred_value: u8,
        other_values: &[u8; 3],
    ) -> (entries: Vec<AgentProficiency>)
        ensures
            entries@ == proficiencies_of(preferred_role, preferred_value, other_values@),
    {
        let mut entries: Vec<AgentProficiency> = Vec::new();
        entries.push(AgentProficiency { role: preferred_role, proficiency: preferred_value });
        let mut index: u8 = 0;
        let mut taken: usize = 0;
        while index < 4
            invariant
                index <= 4,
                taken <= 3,
                taken == if index <= preferred_role.index() {
                    index as int
                } else {
                    index - 1
                },
                entries@.len() == taken + 1,
                forall|i: int|
                    0 <= i < entries@.len() ==> entries@[i] == proficiencies_of(
                        preferred_role,
                        preferred_value,
                        other_values@,
                    )[i],
            decreases 4 - index,
        {
            let role = AgentRole::from_index(index);
            if role != preferred_role {
                entries.push(AgentProficiency { role, proficiency: other_values[taken] });
                taken = taken + 1;
            }
            index = index + 1;
        }
        assert(entries@ =~= proficiencies_of(preferred_role, preferred_value, other_values@));
        entries
    }

    /// The proficiency in `role`: that of the first entry for the role, and
    /// 5 where the player has none.
    pub fn get_role_proficiency(&self, role: AgentRole) -> (value: u8)
        ensures
            value == proficiency_in(self@.agent_proficiencies, role),
    {
        let mut index: usize = 0;
        assert(self.agent_proficiencies@.skip(0) =~= self.agent_proficiencies@);
        while index < self.agent_proficiencies.len()
            invariant
                index <= self.agent_proficiencies@.len(),
                proficiency_in(self.agent_proficiencies@, role) == proficiency_in(
                    self.agent_proficiencies@.skip(index as int),
                    role,
                ),
            decreases self.agent_proficiencies@.len() - index,
        {
            let entry = &self.agent_proficiencies[index];
            if entry.role == role {
                return entry.proficiency;
            }
            assert(self.agent_proficiencies@.skip(index as int).drop_first()
                =~= self.agent_proficiencies@.skip(index + 1));
            index = index + 1;
        }
        5
    }

    /// Raises the morale by one level; the best level stays.
    pub fn improve_morale(&mut self)
        ensures
            final(self)@ == (PlayerView { morale: old(self)@.morale.raised(), ..old(self)@ }),
    {
        self.morale = match self.morale {
            Morale::Abysmal => Morale::Poor,
            Morale::Poor => Morale::Average,
            Morale::Average => Morale::Good,
            Morale::Good => Morale::Superb,
            Morale::Superb => Morale::Superb,
        };
    }

    /// Lowers the morale by one level; the worst level stays.
    pub fn decrease_morale(&mut self)
        ensures
            final(self)@ == (PlayerView { morale: old(self)@.morale.lowered(), ..old(self)@ }),
    {
        self.morale = match self.morale {
            Morale::Abysmal => Morale::Abysmal,
            Morale::Poor => Morale::Abysmal,
            Morale::Average => Morale::Poor,
            Morale::Good => Morale::Average,
            Morale::Superb => Morale::Good,
        };
    }

    /// One day in a player's life: one time in ten the morale moves by one
    /// level, up or down with even odds.
    pub fn daily_update(&mut self)
        ensures
            final(self)@ == (PlayerView { morale: final(self)@.morale, ..old(self)@ }),
            final(self).morale == old(self).morale || final(self).morale == old(
                self,
            ).morale.raised() || final(self).morale == old(self).morale.lowered(),
    {
        let stirred: bool = chance(1, 10);
        let direction: u8 = if stirred {
            roll_between(0, 1)
        } else {
            0
        };
        self.apply_daily_roll(stirred, direction);
    }

    /// What a day does to the morale, given how the dice fell: nothing unless
    /// `stirred`; then one level up on a `direction` of 0, one level down otherwise.
    pub fn apply_daily_roll(&mut self, stirred: bool, direction: u8)
        ensures
            final(self)@ == (PlayerView {
                morale: if !stirred {
                    old(self)@.morale
                } else if direction == 0 {
                    old(self)@.morale.raised()
                } else {
                    old(self)@.morale.lowered()
                },
                ..old(self)@
            }),
    {
        if stirred {
            if direction == 0 {
                self.improve_morale();
            } else {
                self.decrease_morale();
            }
        }
    }
}

/// Ratings on the scale give an overall rating on the scale.
pub proof fn rating_stays_on_scale(attributes: PlayerAttributes)
    requires
        attributes.all_on_scale(),
    ensures
        1 <= attributes.rating() <= 20,
{
}

/// Ratings in the generated range lie on the scale, and give an overall
/// rating from 8 to 18.
pub proof fn generated_rating_range(attributes: PlayerAttributes)
    requires
        attributes.in_generated_range(),
    ensures
        attributes.all_on_scale(),
        8 <= attributes.rating() <= 18,
{
}

/// A new player has one entry for each of the four roles: between 14 and 18
/// for the preferred role, between 6 and 14 for every other. So the
/// proficiency in a role is never the 5 that stands for a missing entry.
pub proof fn recruit_has_every_role(player: PlayerView, name: Seq<char>, role: AgentRole)
    requires
        player.is_recruit(name),
    ensures
        exists|i: int|
            0 <= i < 4 && (#[trigger] player.agent_proficiencies[i]).role == role && forall|j: int|
                0 <= j < 4 && j != i ==> (#[trigger] player.agent_proficiencies[j]).role != role,
        role == player.preferred_role ==> 14 <= proficiency_in(player.agent_proficiencies, role)
            <= 18,
        role != player.preferred_role ==> 6 <= proficiency_in(player.agent_proficiencies, role)
            <= 14,
{
    let entries = player.agent_proficiencies;
    let others = player.preferred_role.others();
    assert(entries[1].role == others[0]);
    assert(entries[2].role == others[1]);
    assert(entries[3].role == others[2]);
    let at: int = if entries[0].role == role {
        0
    } else if entries[1].role == role {
        1
    } else if entries[2].role == role {
        2
    } else {
        3
    };
    assert(entries[at].role == role);
    assert forall|j: int| 0 <= j < 4 && j != at implies (#[trigger] entries[j]).role != role by {}
    let rest1 = entries.drop_first();
    let rest2 = rest1.drop_first();
    let rest3 = rest2.drop_first();
    assert(rest1[0] == entries[1]);
    assert(rest2[0] == entries[2]);
    assert(rest3[0] == entries[3]);
    assert(rest3.drop_first().len() == 0);
    reveal_with_fuel(proficiency_in, 5);
    assert(proficiency_in(entries, role) == entries[at].proficiency);
}

/// The market value of a generated player lies between 50,000 and 500,000,
/// and the salary is a fifth of it to the unit.
pub proof fn generated_market_value_range(attributes: PlayerAttributes)
    requires
        attributes.in_generated_range(),
    ensures
        50_000 <= market_value_of(attributes.rating()) <= 500_000,
        salary_of(market_value_of(attributes.rating())) * 5 == market_value_of(
            attributes.rating(),
        ),
{
}

/// The market value grows with the rating, and is negative exactly below a
/// rating of 7. A fifth of it is a whole number whatever the rating.
pub proof fn market_value_by_rating(rating: int, higher: int)
    requires
        rating <= higher,
    ensures
        market_value_of(rating) <= market_value_of(higher),
        market_value_of(rating) < 0 <==> rating < 7,
        salary_of(market_value_of(rating)) * 5 == market_value_of(rating),
        salary_of(market_value_of(rating)) == 10_000 + (rating - 8) * 9_000,
{
}

/// Raising and lowering move the morale by one level, and by none at the
/// end of the scale that they push against.
pub proof fn morale_moves_one_level(morale: Morale)
    ensures
        1 <= morale.level() <= 5,
        morale.raised().level() == if morale.level() < 5 {
            morale.level() + 1
        } else {
            5
        },
        morale.lowered().level() == if morale.level() > 1 {
            morale.level() - 1
        } else {
            1
        },
{
}

} // verus!
