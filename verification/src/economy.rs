//! Club finances and the per-round credit economy.

use vstd::prelude::*;

verus! {

/// Monthly income every club starts with.
pub const BASE_MONTHLY_INCOME: i64 = 50_000;

/// Facility costs every club starts with.
pub const BASE_FACILITY_COSTS: i64 = 10_000;

/// Marketing budget every club starts with.
pub const BASE_MARKETING_BUDGET: i64 = 5_000;

/// Credits a side holds at the start of a half.
pub const STARTING_CREDITS: u32 = 800;

/// Ceiling of the credit balance.
pub const MAX_CREDITS: u32 = 9_000;

/// The economic tier that governs what a side buys for a round.
#[derive(Debug, Clone, Copy, PartialEq, Eq, Structural)]
pub enum BuyPhase {
    FullBuy,
    HalfBuy,
    EcoRound,
    ForceBuy,
}

/// Monthly bookkeeping of a club's budget.
#[derive(Debug, Clone, Copy)]
pub struct TeamFinances {
    pub budget: i64,
    pub monthly_income: i64,
    pub monthly_expenses: i64,
    pub player_salaries: i64,
    pub facility_costs: i64,
    pub marketing_budget: i64,
    pub prize_money: i64,
}

impl TeamFinances {
    /// What a month costs: salaries, facilities and marketing together.
    pub open spec fn expenses_total(self) -> int {
        self.player_salaries + self.facility_costs + self.marketing_budget
    }

    /// The budget after one month: income added, `expenses_total` taken off.
    pub open spec fn budget_after_month(self) -> int {
        self.budget + self.monthly_income - self.expenses_total()
    }

    pub fn new(starting_budget: i64) -> (finances: Self)
        ensures
            finances == (TeamFinances {
                budget: starting_budget,
                monthly_income: BASE_MONTHLY_INCOME,
                monthly_expenses: 0,
                player_salaries: 0,
                facility_costs: BASE_FACILITY_COSTS,
                marketing_budget: BASE_MARKETING_BUDGET,
                prize_money: 0,
            }),
    {
        TeamFinances {
            budget: starting_budget,
            monthly_income: BASE_MONTHLY_INCOME,
            monthly_expenses: 0,
            player_salaries: 0,
            facility_costs: BASE_FACILITY_COSTS,
            marketing_budget: BASE_MARKETING_BUDGET,
            prize_money: 0,
        }
    }

    /// Recomputes the monthly expenses from the three figures they are made of.
    pub fn calculate_monthly_expenses(&mut self)
        requires
            i64::MIN <= old(self).expenses_total() <= i64::MAX,
        ensures
            *final(self) == (TeamFinances {
                monthly_expenses: old(self).expenses_total() as i64,
                ..*old(self)
            }),
    {
        let total: i128 = self.player_salaries as i128 + self.facility_costs as i128
            + self.marketing_budget as i128;
        self.monthly_expenses = total as i64;
    }

    /// Recomputes the expenses, then books one month of income and expenses.
    pub fn monthly_update(&mut self)
        requires
            i64::MIN <= old(self).expenses_total() <= i64::MAX,
            i64::MIN <= old(self).budget_after_month() <= i64::MAX,
        ensures
            *final(self) == (TeamFinances {
                monthly_expenses: old(self).expenses_total() as i64,
                budget: old(self).budget_after_month() as i64,
                ..*old(self)
            }),
    {
        self.calculate_monthly_expenses();
        let balance: i128 = self.budget as i128 + self.monthly_income as i128
            - self.monthly_expenses as i128;
        self.budget = balance as i64;
    }

    /// Books prize money: the ledger and the budget both grow by `amount`.
    pub fn add_prize_money(&mut self, amount: i64)
        requires
            i64::MIN <= old(self).prize_money + amount <= i64::MAX,
            i64::MIN <= old(self).budget + amount <= i64::MAX,
        ensures
            *final(self) == (TeamFinances {
                prize_money: (old(self).prize_money + amount) as i64,
                budget: (old(self).budget + amount) as i64,
                ..*old(self)
            }),
    {
        self.prize_money = self.prize_money + amount;
        self.budget = self.budget + amount;
    }

    pub fn can_afford(&self, amount: i64) -> (affordable: bool)
        ensures
            affordable == (self.budget >= amount),
    {
        self.budget >= amount
    }

    /// Debits `amount` if the budget covers it, and says whether it did.
    pub fn spend(&mut self, amount: i64) -> (spent: bool)
        requires
            old(self).budget - amount <= i64::MAX,
        ensures
            spent == (old(self).budget >= amount),
            spent ==> *final(self) == (TeamFinances {
                budget: (old(self).budget - amount) as i64,
                ..*old(self)
            }),
            !spent ==> *final(self) == *old(self),
    {
        if self.can_afford(amount) {
            self.budget = self.budget - amount;
            true
        } else {
            false
        }
    }
}

/// The credit state of one side within a round.
#[derive(Debug, Clone, Copy)]
pub struct RoundEconomy {
    pub credits: u32,
    pub buy_phase: BuyPhase,
    pub weapons_cost: u32,
    pub utility_cost: u32,
    pub armor_cost: u32,
}

/// The buy phase that belongs to a credit balance: up to 2000 an eco round,
/// up to 3500 a half buy, up to 5000 a force buy, above that a full buy.
pub open spec fn phase_for_credits(credits: int) -> BuyPhase {
    if credits <= 2000 {
        BuyPhase::EcoRound
    } else if credits <= 3500 {
        BuyPhase::HalfBuy
    } else if credits <= 5000 {
        BuyPhase::ForceBuy
    } else {
        BuyPhase::FullBuy
    }
}

/// What is spent on weapons in a phase, with `credits` at hand.
pub open spec fn weapons_cost_for(phase: BuyPhase, credits: int) -> int {
    match phase {
        BuyPhase::FullBuy => 2900,
        BuyPhase::HalfBuy => 1600,
        BuyPhase::ForceBuy => if credits * 60 / 100 <= 2900 {
            credits * 60 / 100
        } else {
            2900
        },
        BuyPhase::EcoRound => 0,
    }
}

/// What is spent on armor in a phase, with `credits` at hand.
pub open spec fn armor_cost_for(phase: BuyPhase, credits: int) -> int {
    match phase {
        BuyPhase::FullBuy => 1000,
        BuyPhase::HalfBuy => 400,
        BuyPhase::ForceBuy => if credits * 25 / 100 <= 1000 {
            credits * 25 / 100
        } else {
            1000
        },
        BuyPhase::EcoRound => 0,
    }
}

/// What is spent on utility in a phase, with `credits` at hand. A force buy
/// puts into utility whatever weapons and armor leave over.
pub open spec fn utility_cost_for(phase: BuyPhase, credits: int) -> int {
    match phase {
        BuyPhase::FullBuy => 800,
        BuyPhase::HalfBuy => 400,
        BuyPhase::ForceBuy => credits - weapons_cost_for(phase, credits) - armor_cost_for(
            phase,
            credits,
        ),
        BuyPhase::EcoRound => 200,
    }
}

/// The whole price of a phase's purchase.
pub open spec fn total_cost_for(phase: BuyPhase, credits: int) -> int {
    weapons_cost_for(phase, credits) + armor_cost_for(phase, credits) + utility_cost_for(
        phase,
        credits,
    )
}

/// The balance after `amount` credits are granted: the sum, capped at the ceiling.
pub open spec fn credits_after_grant(credits: int, amount: int) -> int {
    if credits + amount <= MAX_CREDITS {
        credits + amount
    } else {
        MAX_CREDITS as int
    }
}

/// The bonus for losing a round, by the number of rounds lost in a row.
pub open spec fn loss_bonus_for(consecutive_losses: u8) -> int {
    if consecutive_losses == 1 {
        1900
    } else if consecutive_losses == 2 {
        2400
    } else {
        2900
    }
}

/// The balance after a series of grants, booked one after the other.
pub open spec fn credits_after_grants(credits: int, amounts: Seq<u32>) -> int
    decreases amounts.len(),
{
    if amounts.len() == 0 {
        credits
    } else {
        credits_after_grant(
            credits_after_grants(credits, amounts.drop_last()),
            amounts.last() as int,
        )
    }
}

impl RoundEconomy {
    /// `self` with its balance replaced.
    pub open spec fn with_credits(self, credits: int) -> RoundEconomy {
        RoundEconomy { credits: credits as u32, ..self }
    }

    /// `self` after the purchase of `phase`: the costs and the phase are
    /// recorded in any case, the price is taken off only if the balance covers it.
    pub open spec fn after_buy(self, phase: BuyPhase) -> RoundEconomy {
        let credits = self.credits as int;
        RoundEconomy {
            credits: if total_cost_for(phase, credits) <= credits {
                (credits - total_cost_for(phase, credits)) as u32
            } else {
                self.credits
            },
            buy_phase: phase,
            weapons_cost: weapons_cost_for(phase, credits) as u32,
            armor_cost: armor_cost_for(phase, credits) as u32,
            utility_cost: utility_cost_for(phase, credits) as u32,
        }
    }

    pub fn new() -> (economy: Self)
        ensures
            economy == (RoundEconomy {
                credits: STARTING_CREDITS,
                buy_phase: BuyPhase::EcoRound,
                weapons_cost: 0,
                utility_cost: 0,
                armor_cost: 0,
            }),
    {
        RoundEconomy {
            credits: STARTING_CREDITS,
            buy_phase: BuyPhase::EcoRound,
            weapons_cost: 0,
            utility_cost: 0,
            armor_cost: 0,
        }
    }

    /// Sets the buy phase to the one that belongs to the current balance.
    pub fn determine_buy_phase(&mut self)
        ensures
            *final(self) == (RoundEconomy {
                buy_phase: phase_for_credits(old(self).credits as int),
                ..*old(self)
            }),
    {
        self.buy_phase = if self.credits <= 2000 {
            BuyPhase::EcoRound
        } else if self.credits <= 3500 {
            BuyPhase::HalfBuy
        } else if self.credits <= 5000 {
            BuyPhase::ForceBuy
        } else {
            BuyPhase::FullBuy
        };
    }

    /// Buys for `buy_phase`. The costs and the phase are recorded even when the
    /// balance does not cover the price; the balance then stays as it was.
    pub fn execute_buy(&mut self, buy_phase: BuyPhase)
        ensures
            *final(self) == old(self).after_buy(buy_phase),
    {
        let available: u32 = self.credits;
        match buy_phase {
            BuyPhase::FullBuy => {
                self.weapons_cost = 2900;
                self.armor_cost = 1000;
                self.utility_cost = 800;
            },
            BuyPhase::HalfBuy => {
                self.weapons_cost = 1600;
                self.armor_cost = 400;
                self.utility_cost = 400;
            },
            BuyPhase::ForceBuy => {
                let weapons_share: u64 = available as u64 * 60 / 100;
                let armor_share: u64 = available as u64 * 25 / 100;
                self.weapons_cost = if weapons_share <= 2900 {
                    weapons_share as u32
                } else {
                    2900
                };
                self.armor_cost = if armor_share <= 1000 {
                    armor_share as u32
                } else {
                    1000
                };
                self.utility_cost = available - self.weapons_cost - self.armor_cost;
            },
            BuyPhase::EcoRound => {
                self.weapons_cost = 0;
                self.armor_cost = 0;
                self.utility_cost = 200;
            },
        }
        let total_cost: u64 = self.weapons_cost as u64 + self.armor_cost as u64
            + self.utility_cost as u64;
        if total_cost <= self.credits as u64 {
            self.credits = self.credits - total_cost as u32;
        }
        self.buy_phase = buy_phase;
    }

    /// Grants `amount` credits; the balance never passes the ceiling.
    pub fn add_credits(&mut self, amount: u32)
        ensures
            *final(self) == old(self).with_credits(
                credits_after_grant(old(self).credits as int, amount as int),
            ),
            final(self).credits <= MAX_CREDITS,
    {
        let sum: u64 = self.credits as u64 + amount as u64;
        self.credits = if sum <= MAX_CREDITS as u64 {
            sum as u32
        } else {
            MAX_CREDITS
        };
    }

    /// The bonus for a round won: 3000 credits.
    pub fn round_win_bonus(&mut self)
        ensures
            *final(self) == old(self).with_credits(
                credits_after_grant(old(self).credits as int, 3000),
            ),
            final(self).credits <= MAX_CREDITS,
    {
        self.add_credits(3000);
    }

    /// The bonus for a round lost, which grows with the rounds lost in a row.
    pub fn round_loss_bonus(&mut self, consecutive_losses: u8)
        ensures
            *final(self) == old(self).with_credits(
                credits_after_grant(old(self).credits as int, loss_bonus_for(consecutive_losses)),
            ),
            final(self).credits <= MAX_CREDITS,
    {
        let bonus: u32 = if consecutive_losses == 1 {
            1900
        } else if consecutive_losses == 2 {
            2400
        } else {
            2900
        };
        self.add_credits(bonus);
    }

    /// The bonus for kills: 200 credits each.
    pub fn kill_bonus(&mut self, kills: u8)
        ensures
            *final(self) == old(self).with_credits(
                credits_after_grant(old(self).credits as int, kills * 200),
            ),
            final(self).credits <= MAX_CREDITS,
    {
        self.add_credits(kills as u32 * 200);
    }

    /// The bonus for planting the spike: 300 credits.
    pub fn spike_plant_bonus(&mut self)
        ensures
            *final(self) == old(self).with_credits(
                credits_after_grant(old(self).credits as int, 300),
            ),
            final(self).credits <= MAX_CREDITS,
    {
        self.add_credits(300);
    }
}

/// However many grants are stacked on whatever balance, the balance that
/// results lies between 0 and the ceiling.
pub proof fn stacked_grants_stay_capped(credits: u32, amounts: Seq<u32>)
    requires
        amounts.len() > 0,
    ensures
        0 <= credits_after_grants(credits as int, amounts) <= MAX_CREDITS,
    decreases amounts.len(),
{
    if amounts.len() > 1 {
        stacked_grants_stay_capped(credits, amounts.drop_last());
    } else {
        assert(credits_after_grants(credits as int, amounts.drop_last()) == credits);
    }
}

/// A force buy never spends more on weapons and armor than there is: what
/// goes to utility is never negative, and the three costs add up to the balance.
pub proof fn force_buy_spends_the_balance(credits: u32)
    ensures
        utility_cost_for(BuyPhase::ForceBuy, credits as int) >= 0,
        total_cost_for(BuyPhase::ForceBuy, credits as int) == credits,
        weapons_cost_for(BuyPhase::ForceBuy, credits as int) + armor_cost_for(
            BuyPhase::ForceBuy,
            credits as int,
        ) <= credits,
{
}

/// The buy phase depends on the balance alone, and never falls as the balance grows.
pub proof fn buy_phase_brackets(credits: u32)
    ensures
        phase_for_credits(credits as int) == BuyPhase::EcoRound <==> credits <= 2000,
        phase_for_credits(credits as int) == BuyPhase::HalfBuy <==> 2001 <= credits <= 3500,
        phase_for_credits(credits as int) == BuyPhase::ForceBuy <==> 3501 <= credits <= 5000,
        phase_for_credits(credits as int) == BuyPhase::FullBuy <==> credits > 5000,
{
}

} // verus!
