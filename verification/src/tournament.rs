//! The season's calendar of events, the championship standings, and who
//! qualifies for what.

use crate::calendar::GameDate;
use crate::identity::{
    first_index_of, first_index_of_found, first_index_of_is_first, fresh_id, is_random_uuid,
};
use crate::match_simulation::{MatchResult, MatchResultView};
use vstd::prelude::*;

verus! {

/// The six events of a season, in the order in which they are played.
#[derive(Debug, Clone, Copy, PartialEq, Eq, Structural)]
pub enum VCTEvent {
    Kickoff,
    MastersBangkok,
    Stage1,
    MastersToronto,
    Stage2,
    ChampionsParis,
}

impl VCTEvent {
    /// The week count at which the event is over; the last event of the
    /// season has none.
    pub open spec fn closing_week(self) -> Option<int> {
        match self {
            VCTEvent::Kickoff => Some(4),
            VCTEvent::MastersBangkok => Some(2),
            VCTEvent::Stage1 => Some(8),
            VCTEvent::MastersToronto => Some(2),
            VCTEvent::Stage2 => Some(8),
            VCTEvent::ChampionsParis => None,
        }
    }

    /// The event that follows; nothing follows the last one.
    pub open spec fn successor(self) -> VCTEvent {
        match self {
            VCTEvent::Kickoff => VCTEvent::MastersBangkok,
            VCTEvent::MastersBangkok => VCTEvent::Stage1,
            VCTEvent::Stage1 => VCTEvent::MastersToronto,
            VCTEvent::MastersToronto => VCTEvent::Stage2,
            VCTEvent::Stage2 => VCTEvent::ChampionsParis,
            VCTEvent::ChampionsParis => VCTEvent::ChampionsParis,
        }
    }

    /// The event's place in the season, counted from 0.
    pub open spec fn ordinal(self) -> int {
        match self {
            VCTEvent::Kickoff => 0,
            VCTEvent::MastersBangkok => 1,
            VCTEvent::Stage1 => 2,
            VCTEvent::MastersToronto => 3,
            VCTEvent::Stage2 => 4,
            VCTEvent::ChampionsParis => 5,
        }
    }

    /// Whether a win in this event is worth a championship point.
    pub open spec fn awards_points(self) -> bool {
        self == VCTEvent::Stage1 || self == VCTEvent::Stage2
    }

    /// How many of the top standings qualify for the Masters during this event.
    pub open spec fn masters_places(self) -> int {
        match self {
            VCTEvent::Kickoff => 2,
            VCTEvent::Stage1 => 3,
            VCTEvent::MastersBangkok => 0,
            VCTEvent::MastersToronto => 0,
            VCTEvent::Stage2 => 0,
            VCTEvent::ChampionsParis => 0,
        }
    }

    /// The name under which the event is shown.
    pub open spec fn name(self) -> Seq<char> {
        match self {
            VCTEvent::Kickoff => "VCT Kickoff"@,
            VCTEvent::MastersBangkok => "Masters Bangkok"@,
            VCTEvent::Stage1 => "VCT Stage 1"@,
            VCTEvent::MastersToronto => "Masters Toronto"@,
            VCTEvent::Stage2 => "VCT Stage 2"@,
            VCTEvent::ChampionsParis => "Champions Paris"@,
        }
    }
}

/// How many of the top standings qualify for the Champions.
pub const CHAMPIONS_PLACES: usize = 4;

/// One row of the championship standings.
#[derive(Debug, Clone, Copy)]
pub struct ChampionshipStanding {
    pub team_id: u128,
    pub points: u32,
    pub wins: u32,
    pub losses: u32,
}

/// Where the season stands: the event and week, the events over, and the standings.
#[derive(Debug, Clone)]
pub struct TournamentState {
    pub current_event: VCTEvent,
    pub current_week: u8,
    pub events_completed: Vec<VCTEvent>,
    pub qualified_teams: Vec<u128>,
    pub championship_standings: Vec<ChampionshipStanding>,
}

/// What a `TournamentState` holds, as plain values.
pub struct TournamentView {
    pub current_event: VCTEvent,
    pub current_week: u8,
    pub events_completed: Seq<VCTEvent>,
    pub qualified_teams: Seq<u128>,
    pub championship_standings: Seq<ChampionshipStanding>,
}

impl View for TournamentState {
    type V = TournamentView;

    open spec fn view(&self) -> TournamentView {
        TournamentView {
            current_event: self.current_event,
            current_week: self.current_week,
            events_completed: self.events_completed@,
            qualified_teams: self.qualified_teams@,
            championship_standings: self.championship_standings@,
        }
    }
}

/// The team ids of the standings, row by row.
pub open spec fn standing_ids(rows: Seq<ChampionshipStanding>) -> Seq<u128> {
    Seq::new(rows.len(), |i: int| rows[i].team_id)
}

/// The position of the first row of `team_id`, and the number of rows where
/// the team has none.
pub open spec fn row_of(rows: Seq<ChampionshipStanding>, team_id: u128) -> int {
    first_index_of(standing_ids(rows), team_id)
}

/// Whether one of the first `places` rows is a row of `team_id`.
pub open spec fn in_top(rows: Seq<ChampionshipStanding>, places: int, team_id: u128) -> bool {
    exists|i: int| 0 <= i < places && i < rows.len() && (#[trigger] rows[i]).team_id == team_id
}

/// The test that holds of the rows with `points` points.
pub open spec fn has_points(points: u32) -> spec_fn(ChampionshipStanding) -> bool {
    |row: ChampionshipStanding| row.points == points
}

/// The rows with `points` points, in their order.
pub open spec fn rows_with(rows: Seq<ChampionshipStanding>, points: u32) -> Seq<
    ChampionshipStanding,
> {
    rows.filter(has_points(points))
}

/// Whether no row has more points than a row before it.
pub open spec fn ranked(rows: Seq<ChampionshipStanding>) -> bool {
    forall|i: int, j: int| 0 <= i < j < rows.len() ==> rows[i].points >= rows[j].points
}

/// Whether `ranking` is `rows` put in order of points, highest first, with
/// rows of equal points left in the order they had: for every number of
/// points the rows that have it are the same, in the same order.
pub open spec fn is_stable_ranking_of(
    ranking: Seq<ChampionshipStanding>,
    rows: Seq<ChampionshipStanding>,
) -> bool {
    &&& ranked(ranking)
    &&& forall|points: u32| #[trigger] rows_with(ranking, points) == rows_with(rows, points)
}

impl TournamentView {
    /// The season at its start: first week of the first event, nothing
    /// played and nobody ranked.
    pub open spec fn opening() -> TournamentView {
        TournamentView {
            current_event: VCTEvent::Kickoff,
            current_week: 1,
            events_completed: Seq::empty(),
            qualified_teams: Seq::empty(),
            championship_standings: Seq::empty(),
        }
    }

    /// The week count one week on: one more, and the highest count there is
    /// once that is reached.
    pub open spec fn next_week(week: u8) -> u8 {
        if week < u8::MAX {
            (week + 1) as u8
        } else {
            week
        }
    }

    /// The season one week on. When the new week count is the closing week
    /// of the event, the event joins the completed ones, its successor
    /// begins, and the count starts again at 1. Otherwise only the week count
    /// moves, and stays where it is once it has reached the highest count
    /// there is.
    pub open spec fn after_week(self) -> TournamentView {
        if self.current_event.closing_week() == Some(self.current_week + 1) {
            TournamentView {
                current_event: self.current_event.successor(),
                current_week: 1,
                events_completed: self.events_completed.push(self.current_event),
                ..self
            }
        } else {
            TournamentView { current_week: TournamentView::next_week(self.current_week), ..self }
        }
    }

    /// The season `weeks` weeks on.
    pub open spec fn after_weeks(self, weeks: nat) -> TournamentView
        decreases weeks,
    {
        if weeks == 0 {
            self
        } else {
            self.after_weeks((weeks - 1) as nat).after_week()
        }
    }

    /// The standings with `points` booked for `team_id`, before they are put
    /// in order: added to the team's first row, or in a new last row without
    /// wins and losses where the team has none.
    pub open spec fn standings_with_points(self, team_id: u128, points: u32) -> Seq<
        ChampionshipStanding,
    > {
        let rows = self.championship_standings;
        let at = row_of(rows, team_id);
        if at < rows.len() {
            rows.update(
                at,
                ChampionshipStanding { points: (rows[at].points + points) as u32, ..rows[at] },
            )
        } else {
            rows.push(ChampionshipStanding { team_id, points, wins: 0, losses: 0 })
        }
    }

    /// A row after a match of its team: one more win, and one more point
    /// where the event awards points, or one more loss.
    pub open spec fn row_after_match(self, row: ChampionshipStanding, won: bool)
        -> ChampionshipStanding {
        if won {
            ChampionshipStanding {
                wins: (row.wins + 1) as u32,
                points: if self.current_event.awards_points() {
                    (row.points + 1) as u32
                } else {
                    row.points
                },
                ..row
            }
        } else {
            ChampionshipStanding { losses: (row.losses + 1) as u32, ..row }
        }
    }

    /// The standings with a match of `team_id` booked in the team's first
    /// row, before they are put in order again; a team without a row leaves
    /// them as they are.
    pub open spec fn standings_with_match(self, team_id: u128, won: bool) -> Seq<
        ChampionshipStanding,
    > {
        let rows = self.championship_standings;
        let at = row_of(rows, team_id);
        if at < rows.len() {
            rows.update(at, self.row_after_match(rows[at], won))
        } else {
            rows
        }
    }

    /// Whether a match of `team_id` changes the points of a row: the team
    /// has a row, the match was won, and the event awards points.
    pub open spec fn match_awards_point(self, team_id: u128, won: bool) -> bool {
        &&& row_of(self.championship_standings, team_id) < self.championship_standings.len()
        &&& won
        &&& self.current_event.awards_points()
    }

    /// Whether `standings` are the standings after a match of `team_id`: the
    /// match is booked in the team's first row; and where that has changed
    /// the points of the row, the standings are put in order of points again,
    /// highest first, rows of equal points keeping their order.
    pub open spec fn is_booked_in(
        self,
        standings: Seq<ChampionshipStanding>,
        team_id: u128,
        won: bool,
    ) -> bool {
        if self.match_awards_point(team_id, won) {
            &&& is_stable_ranking_of(standings, self.standings_with_match(team_id, won))
            &&& standings.len() == self.championship_standings.len()
        } else {
            standings == self.standings_with_match(team_id, won)
        }
    }

    /// Whether `team_id` qualifies for the Masters: among the top two during
    /// the Kickoff, among the top three during Stage 1, and never otherwise.
    pub open spec fn qualifies_for_masters(self, team_id: u128) -> bool {
        in_top(self.championship_standings, self.current_event.masters_places(), team_id)
    }

    /// Whether `team_id` qualifies for the Champions: among the top four,
    /// whatever the event.
    pub open spec fn qualifies_for_champions(self, team_id: u128) -> bool {
        in_top(self.championship_standings, CHAMPIONS_PLACES as int, team_id)
    }
}

impl TournamentState {
    pub fn new() -> (state: Self)
        ensures
            state@ == TournamentView::opening(),
    {
        TournamentState {
            current_event: VCTEvent::Kickoff,
            current_week: 1,
            events_completed: Vec::new(),
            qualified_teams: Vec::new(),
            championship_standings: Vec::new(),
        }
    }

    /// Moves the season one week on, and into the next event when the
    /// current one is over. A week count that has reached the highest count
    /// there is stays there.
    pub fn advance_week(&mut self)
        ensures
            final(self)@ == old(self)@.after_week(),
    {
        if self.current_week < u8::MAX {
            self.current_week = self.current_week + 1;
        }
        let week: u8 = self.current_week;
        match self.current_event {
            VCTEvent::Kickoff => {
                if week == 4 {
                    self.complete_event(VCTEvent::Kickoff);
                    self.current_event = VCTEvent::MastersBangkok;
                    self.current_week = 1;
                }
            },
            VCTEvent::MastersBangkok => {
                if week == 2 {
                    self.complete_event(VCTEvent::MastersBangkok);
                    self.current_event = VCTEvent::Stage1;
                    self.current_week = 1;
                }
            },
            VCTEvent::Stage1 => {
                if week == 8 {
                    self.complete_event(VCTEvent::Stage1);
                    self.current_event = VCTEvent::MastersToronto;
                    self.current_week = 1;
                }
            },
            VCTEvent::MastersToronto => {
                if week == 2 {
                    self.complete_event(VCTEvent::MastersToronto);
                    self.current_event = VCTEvent::Stage2;
                    self.current_week = 1;
                }
            },
            VCTEvent::Stage2 => {
                if week == 8 {
                    self.complete_event(VCTEvent::Stage2);
                    self.current_event = VCTEvent::ChampionsParis;
                    self.current_week = 1;
                }
            },
            VCTEvent::ChampionsParis => {},
        }
    }

    fn complete_event(&mut self, event: VCTEvent)
        ensures
            final(self)@ == (TournamentView {
                events_completed: old(self)@.events_completed.push(event),
                ..old(self)@
            }),
    {
        self.events_completed.push(event);
    }

    /// The position of the first row of `team_id`, and the number of rows
    /// where the team has none.
    pub fn standing_index(&self, team_id: u128) -> (at: usize)
        ensures
            at == row_of(self@.championship_standings, team_id),
            at <= self@.championship_standings.len(),
            at < self@.championship_standings.len() ==> self@.championship_standings[at
                as int].team_id == team_id,
    {
        let ghost ids = standing_ids(self.championship_standings@);
        let mut at: usize = 0;
        while at < self.championship_standings.len()
            invariant
                at <= self.championship_standings@.len(),
                ids == standing_ids(self.championship_standings@),
                forall|j: int| 0 <= j < at ==> ids[j] != team_id,
            decreases self.championship_standings@.len() - at,
        {
            if self.championship_standings[at].team_id == team_id {
                proof {
                    first_index_of_found(ids, team_id, at as int);
                }
                return at;
            }
            at = at + 1;
        }
        proof {
            first_index_of_is_first(ids, team_id);
        }
        at
    }

    /// Books `points` for `team_id`, in its first row or in a new one, and
    /// puts the standings in order of points, highest first; rows of equal
    /// points keep their order.
    pub fn add_championship_points(&mut self, team_id: u128, points: u32)
        requires
            row_of(old(self)@.championship_standings, team_id) < old(
                self,
            )@.championship_standings.len() ==> old(self)@.championship_standings[row_of(
                old(self)@.championship_standings,
                team_id,
            )].points + points <= u32::MAX,
        ensures
            final(self)@ == (TournamentView {
                championship_standings: final(self)@.championship_standings,
                ..old(self)@
            }),
            is_stable_ranking_of(
                final(self)@.championship_standings,
                old(self)@.standings_with_points(team_id, points),
            ),
            final(self)@.championship_standings.len() == old(self)@.standings_with_points(
                team_id,
                points,
            ).len(),
    {
        let at = self.standing_index(team_id);
        if at < self.championship_standings.len() {
            let row = self.championship_standings[at];
            self.championship_standings.set(
                at,
                ChampionshipStanding { points: row.points + points, ..row },
            );
        } else {
            self.championship_standings.push(
                ChampionshipStanding { team_id, points, wins: 0, losses: 0 },
            );
        }
        self.championship_standings = rank_by_points(&self.championship_standings);
    }

    /// Books a match of `team_id` in its first row: a win, which is worth a
    /// championship point during Stage 1 and Stage 2, or a loss. After a
    /// point the standings are put in order of points again, highest first;
    /// rows of equal points keep their order. A team without a row leaves the
    /// standings as they are.
    pub fn record_match_result(&mut self, team_id: u128, won: bool)
        requires
            ({
                let rows = old(self)@.championship_standings;
                let at = row_of(rows, team_id);
                at < rows.len() ==> {
                    &&& won ==> rows[at].wins < u32::MAX
                    &&& won && old(self).current_event.awards_points() ==> rows[at].points
                        < u32::MAX
                    &&& !won ==> rows[at].losses < u32::MAX
                }
            }),
        ensures
            final(self)@ == (TournamentView {
                championship_standings: final(self)@.championship_standings,
                ..old(self)@
            }),
            old(self)@.is_booked_in(final(self)@.championship_standings, team_id, won),
    {
        let at = self.standing_index(team_id);
        if at < self.championship_standings.len() {
            let row = self.championship_standings[at];
            let awards: bool = won && match self.current_event {
                VCTEvent::Stage1 => true,
                VCTEvent::Stage2 => true,
                VCTEvent::Kickoff => false,
                VCTEvent::MastersBangkok => false,
                VCTEvent::MastersToronto => false,
                VCTEvent::ChampionsParis => false,
            };
            let booked = if won {
                ChampionshipStanding {
                    wins: row.wins + 1,
                    points: if awards {
                        row.points + 1
                    } else {
                        row.points
                    },
                    ..row
                }
            } else {
                ChampionshipStanding { losses: row.losses + 1, ..row }
            };
            self.championship_standings.set(at, booked);
            if awards {
                self.championship_standings = rank_by_points(&self.championship_standings);
            }
        }
    }

    /// The first row of `team_id`, if the team has one.
    pub fn get_team_standing(&self, team_id: u128) -> (found: Option<&ChampionshipStanding>)
        ensures
            match found {
                Some(row) => row_of(self@.championship_standings, team_id)
                    < self@.championship_standings.len() && *row
                    == self@.championship_standings[row_of(self@.championship_standings, team_id)],
                None => row_of(self@.championship_standings, team_id)
                    == self@.championship_standings.len(),
            },
    {
        let at = self.standing_index(team_id);
        if at < self.championship_standings.len() {
            Some(&self.championship_standings[at])
        } else {
            None
        }
    }

    /// Whether one of the first `places` rows is a row of `team_id`.
    pub fn is_in_top(&self, places: usize, team_id: u128) -> (found: bool)
        ensures
            found == in_top(self@.championship_standings, places as int, team_id),
    {
        let mut at: usize = 0;
        while at < places && at < self.championship_standings.len()
            invariant
                forall|j: int|
                    0 <= j < at ==> (#[trigger] self.championship_standings@[j]).team_id
                        != team_id,
            decreases self.championship_standings@.len() - at,
        {
            if self.championship_standings[at].team_id == team_id {
                return true;
            }
            at = at + 1;
        }
        false
    }

    /// Whether `team_id` qualifies for the Masters: among the top two during
    /// the Kickoff, among the top three during Stage 1, and never otherwise.
    pub fn is_qualified_for_masters(&self, team_id: u128) -> (qualified: bool)
        ensures
            qualified == self@.qualifies_for_masters(team_id),
    {
        match self.current_event {
            VCTEvent::Kickoff => self.is_in_top(2, team_id),
            VCTEvent::Stage1 => self.is_in_top(3, team_id),
            VCTEvent::MastersBangkok => false,
            VCTEvent::MastersToronto => false,
            VCTEvent::Stage2 => false,
            VCTEvent::ChampionsParis => false,
        }
    }

    /// Whether `team_id` qualifies for the Champions: among the top four,
    /// whatever the event.
    pub fn is_qualified_for_champions(&self, team_id: u128) -> (qualified: bool)
        ensures
            qualified == self@.qualifies_for_champions(team_id),
    {
        match self.get_team_standing(team_id) {
            Some(_) => self.is_in_top(CHAMPIONS_PLACES, team_id),
            None => {
                proof {
                    first_index_of_is_first(standing_ids(self@.championship_standings), team_id);
                    if in_top(self@.championship_standings, CHAMPIONS_PLACES as int, team_id) {
                        let i = choose|i: int|
                            0 <= i < CHAMPIONS_PLACES && i < self@.championship_standings.len() && (
                            #[trigger] self@.championship_standings[i]).team_id == team_id;
                        assert(standing_ids(self@.championship_standings)[i] == team_id);
                    }
                }
                false
            },
        }
    }

    /// The name under which the current event is shown.
    pub fn get_current_event_name(&self) -> (name: &'static str)
        ensures
            name@ == self.current_event.name(),
    {
        match self.current_event {
            VCTEvent::Kickoff => "VCT Kickoff",
            VCTEvent::MastersBangkok => "Masters Bangkok",
            VCTEvent::Stage1 => "VCT Stage 1",
            VCTEvent::MastersToronto => "Masters Toronto",
            VCTEvent::Stage2 => "VCT Stage 2",
            VCTEvent::ChampionsParis => "Champions Paris",
        }
    }
}

/// Puts `rows` in order of points, highest first; rows of equal points keep
/// their order.
pub fn rank_by_points(rows: &Vec<ChampionshipStanding>) -> (ranking: Vec<ChampionshipStanding>)
    ensures
        is_stable_ranking_of(ranking@, rows@),
        ranking@.len() == rows@.len(),
{
    let mut ranking: Vec<ChampionshipStanding> = Vec::new();
    let mut next: usize = 0;
    assert(rows@.take(0) =~= Seq::<ChampionshipStanding>::empty());
    while next < rows.len()
        invariant
            next <= rows@.len(),
            ranking@.len() == next,
            is_stable_ranking_of(ranking@, rows@.take(next as int)),
        decreases rows@.len() - next,
    {
        let row = rows[next];
        let mut at: usize = 0;
        while at < ranking.len() && ranking[at].points >= row.points
            invariant
                at <= ranking@.len(),
                forall|j: int| 0 <= j < at ==> ranking@[j].points >= row.points,
            decreases ranking@.len() - at,
        {
            at = at + 1;
        }
        proof {
            insertion_keeps_ranking(ranking@, rows@.take(next as int), row, at as int);
            assert(rows@.take(next + 1) =~= rows@.take(next as int).push(row));
        }
        ranking.insert(at, row);
        next = next + 1;
    }
    assert(rows@.take(next as int) =~= rows@);
    ranking
}

/// No row of `rows` with `points` points: none is picked out.
proof fn rows_with_none(rows: Seq<ChampionshipStanding>, points: u32)
    requires
        forall|i: int| 0 <= i < rows.len() ==> rows[i].points != points,
    ensures
        rows_with(rows, points) == Seq::<ChampionshipStanding>::empty(),
{
    let picked = rows_with(rows, points);
    if picked.len() > 0 {
        rows.lemma_filter_pred(has_points(points), 0);
        rows.lemma_filter_contains_rev(has_points(points), picked[0]);
        assert(picked.contains(picked[0]));
    }
    assert(picked =~= Seq::<ChampionshipStanding>::empty());
}

/// A ranking of `rows` stays one, of `rows` with `row` at its end, when `row`
/// goes in behind every row with as many points or more and before the rest.
proof fn insertion_keeps_ranking(
    ranking: Seq<ChampionshipStanding>,
    rows: Seq<ChampionshipStanding>,
    row: ChampionshipStanding,
    at: int,
)
    requires
        is_stable_ranking_of(ranking, rows),
        0 <= at <= ranking.len(),
        forall|j: int| 0 <= j < at ==> ranking[j].points >= row.points,
        at < ranking.len() ==> ranking[at].points < row.points,
    ensures
        is_stable_ranking_of(ranking.insert(at, row), rows.push(row)),
{
    let grown = ranking.insert(at, row);
    let head = ranking.take(at);
    let tail = ranking.skip(at);
    assert(grown =~= head.push(row) + tail);
    assert(ranking =~= head + tail);
    assert forall|i: int, j: int| 0 <= i < j < grown.len() implies grown[i].points
        >= grown[j].points by {
        if j < at {
        } else if j == at {
        } else if i < at {
            assert(grown[j] == ranking[j - 1]);
            assert(ranking[at].points < row.points);
        } else if i == at {
            assert(grown[j] == ranking[j - 1]);
            assert(ranking[at].points >= ranking[j - 1].points || at == j - 1);
        } else {
            assert(grown[i] == ranking[i - 1]);
            assert(grown[j] == ranking[j - 1]);
        }
    }
    assert forall|points: u32| #[trigger] rows_with(grown, points) == rows_with(
        rows.push(row),
        points,
    ) by {
        let pick = has_points(points);
        Seq::filter_distributes_over_add(head.push(row), tail, pick);
        Seq::filter_distributes_over_add(head, tail, pick);
        Seq::lemma_filter_push(head, row, pick);
        Seq::lemma_filter_push(rows, row, pick);
        assert(rows_with(ranking, points) == rows_with(rows, points));
        if row.points == points {
            assert forall|i: int| 0 <= i < tail.len() implies tail[i].points != points by {
                assert(tail[i] == ranking[at + i]);
                assert(ranking[at].points >= ranking[at + i].points || i == 0);
            }
            rows_with_none(tail, points);
            assert(rows_with(grown, points) =~= rows_with(ranking, points).push(row));
        } else {
            assert(rows_with(grown, points) =~= rows_with(ranking, points));
        }
    }
}

/// The rows with the points of the first row begin with the first row.
proof fn first_row_leads_its_points(rows: Seq<ChampionshipStanding>, points: u32)
    requires
        rows.len() > 0,
    ensures
        rows_with(rows, points) == if rows[0].points == points {
            seq![rows[0]] + rows_with(rows.drop_first(), points)
        } else {
            rows_with(rows.drop_first(), points)
        },
{
    let pick = has_points(points);
    let head = Seq::<ChampionshipStanding>::empty().push(rows[0]);
    assert(rows =~= head + rows.drop_first());
    Seq::filter_distributes_over_add(head, rows.drop_first(), pick);
    Seq::lemma_filter_push(Seq::<ChampionshipStanding>::empty(), rows[0], pick);
    assert(Seq::<ChampionshipStanding>::empty().filter(pick) =~= Seq::empty()) by {
        Seq::<ChampionshipStanding>::empty().lemma_filter_len(pick);
    }
    if rows[0].points == points {
        assert(head.filter(pick) =~= seq![rows[0]]);
    } else {
        assert(head.filter(pick) =~= Seq::empty());
        assert(rows_with(rows, points) =~= rows_with(rows.drop_first(), points));
    }
}

/// A row with the most points of a ranking that the other ranking has too:
/// the other ranking's first row has no more points than this ranking's.
proof fn leader_has_most_points(
    first: Seq<ChampionshipStanding>,
    second: Seq<ChampionshipStanding>,
)
    requires
        ranked(first),
        second.len() > 0,
        forall|points: u32| #[trigger] rows_with(first, points) == rows_with(second, points),
    ensures
        first.len() > 0,
        first[0].points >= second[0].points,
{
    let points = second[0].points;
    let pick = has_points(points);
    second.lemma_filter_contains(pick, 0);
    let picked = rows_with(first, points);
    assert(picked == rows_with(second, points));
    assert(picked.contains(second[0]));
    first.lemma_filter_contains_rev(pick, second[0]);
    let at = choose|at: int| 0 <= at < first.len() && first[at] == second[0];
    assert(first[0].points >= first[at].points || at == 0);
}

/// The order that `add_championship_points` leaves is the only one that is
/// ranked and keeps, for every number of points, the rows that have it in
/// the order they had: two stable rankings of the same rows are the same.
pub proof fn stable_ranking_is_unique(
    first: Seq<ChampionshipStanding>,
    second: Seq<ChampionshipStanding>,
    rows: Seq<ChampionshipStanding>,
)
    requires
        is_stable_ranking_of(first, rows),
        is_stable_ranking_of(second, rows),
    ensures
        first == second,
{
    assert forall|points: u32| #[trigger] rows_with(first, points) == rows_with(
        second,
        points,
    ) by {
        assert(rows_with(first, points) == rows_with(rows, points));
        assert(rows_with(second, points) == rows_with(rows, points));
    }
    rankings_with_the_same_rows_agree(first, second);
}

/// Two rankings that hold, for every number of points, the same rows in the
/// same order are the same.
proof fn rankings_with_the_same_rows_agree(
    first: Seq<ChampionshipStanding>,
    second: Seq<ChampionshipStanding>,
)
    requires
        ranked(first),
        ranked(second),
        forall|points: u32| #[trigger] rows_with(first, points) == rows_with(second, points),
    ensures
        first == second,
    decreases first.len(),
{
    if first.len() == 0 {
        if second.len() > 0 {
            leader_has_most_points(first, second);
        }
        assert(first =~= second);
    } else {
        assert forall|points: u32| #[trigger] rows_with(second, points) == rows_with(
            first,
            points,
        ) by {
            assert(rows_with(first, points) == rows_with(second, points));
        }
        leader_has_most_points(second, first);
        leader_has_most_points(first, second);
        let top = first[0].points;
        first_row_leads_its_points(first, top);
        first_row_leads_its_points(second, top);
        assert(rows_with(first, top) == rows_with(second, top));
        assert(rows_with(first, top)[0] == first[0]);
        assert(rows_with(second, top)[0] == second[0]);
        let first_rest = first.drop_first();
        let second_rest = second.drop_first();
        assert forall|points: u32| #[trigger] rows_with(first_rest, points) == rows_with(
            second_rest,
            points,
        ) by {
            first_row_leads_its_points(first, points);
            first_row_leads_its_points(second, points);
            assert(rows_with(first, points) == rows_with(second, points));
            if first[0].points == points {
                let lead = seq![first[0]];
                let one = rows_with(first_rest, points);
                let other = rows_with(second_rest, points);
                assert(lead + one == lead + other);
                assert(one.len() == other.len()) by {
                    assert((lead + one).len() == (lead + other).len());
                }
                assert forall|i: int| 0 <= i < one.len() implies one[i] == other[i] by {
                    assert((lead + one)[i + 1] == one[i]);
                    assert((lead + other)[i + 1] == other[i]);
                }
                assert(one =~= other);
            }
        }
        assert(ranked(first_rest)) by {
            assert forall|i: int, j: int| 0 <= i < j < first_rest.len() implies first_rest[i].points
                >= first_rest[j].points by {
                assert(first[i + 1].points >= first[j + 1].points);
            }
        }
        assert(ranked(second_rest)) by {
            assert forall|i: int, j: int| 0 <= i < j < second_rest.len() implies
                second_rest[i].points >= second_rest[j].points by {
                assert(second[i + 1].points >= second[j + 1].points);
            }
        }
        rankings_with_the_same_rows_agree(first_rest, second_rest);
        assert(first =~= seq![first[0]] + first_rest);
        assert(second =~= seq![second[0]] + second_rest);
    }
}

/// The rows that a test picks out stand in the order they had: of two of
/// them, the earlier is picked out at an earlier place.
proof fn picked_rows_keep_their_order(
    rows: Seq<ChampionshipStanding>,
    points: u32,
    earlier: int,
    later: int,
)
    requires
        0 <= earlier < later < rows.len(),
        rows[earlier].points == points,
        rows[later].points == points,
    ensures
        rows_with(rows.take(earlier), points).len() < rows_with(rows.take(later), points).len(),
        rows_with(rows.take(later), points).len() < rows_with(rows, points).len(),
        rows_with(rows, points)[rows_with(rows.take(earlier), points).len() as int]
            == rows[earlier],
        rows_with(rows, points)[rows_with(rows.take(later), points).len() as int] == rows[later],
{
    let pick = has_points(points);
    let upto_earlier = rows.take(earlier);
    let with_earlier = rows.take(earlier + 1);
    let upto_later = rows.take(later);
    let with_later = rows.take(later + 1);
    assert(with_earlier =~= upto_earlier.push(rows[earlier]));
    assert(with_later =~= upto_later.push(rows[later]));
    Seq::lemma_filter_push(upto_earlier, rows[earlier], pick);
    Seq::lemma_filter_push(upto_later, rows[later], pick);
    assert(upto_later =~= with_earlier + upto_later.skip(earlier + 1));
    Seq::filter_distributes_over_add(with_earlier, upto_later.skip(earlier + 1), pick);
    assert(rows =~= with_later + rows.skip(later + 1));
    Seq::filter_distributes_over_add(with_later, rows.skip(later + 1), pick);
    assert(rows =~= with_earlier + rows.skip(earlier + 1));
    Seq::filter_distributes_over_add(with_earlier, rows.skip(earlier + 1), pick);
}

/// Every row that a test picks out is a row of the list, and of two rows
/// picked out the earlier stands earlier in the list.
proof fn picked_rows_come_in_order(
    rows: Seq<ChampionshipStanding>,
    points: u32,
    first: int,
    second: int,
)
    requires
        0 <= first < second < rows_with(rows, points).len(),
    ensures
        exists|earlier: int, later: int|
            0 <= earlier < later < rows.len() && #[trigger] rows[earlier] == rows_with(
                rows,
                points,
            )[first] && #[trigger] rows[later] == rows_with(rows, points)[second],
    decreases rows.len(),
{
    let pick = has_points(points);
    let picked = rows_with(rows, points);
    if rows.len() == 0 {
        rows.lemma_filter_len(pick);
    } else {
        let rest = rows.drop_last();
        let picked_rest = rows_with(rest, points);
        assert(rows =~= rest.push(rows.last()));
        Seq::lemma_filter_push(rest, rows.last(), pick);
        if second < picked_rest.len() {
            assert(picked[first] == picked_rest[first]);
            assert(picked[second] == picked_rest[second]);
            picked_rows_come_in_order(rest, points, first, second);
            let (earlier, later) = choose|earlier: int, later: int|
                0 <= earlier < later < rest.len() && #[trigger] rest[earlier]
                    == picked_rest[first] && #[trigger] rest[later] == picked_rest[second];
            assert(rows[earlier] == picked[first] && rows[later] == picked[second]);
        } else {
            assert(picked == picked_rest.push(rows.last()));
            assert(picked[second] == rows.last());
            assert(picked[first] == picked_rest[first]);
            assert(picked_rest.contains(picked_rest[first]));
            rest.lemma_filter_contains_rev(pick, picked_rest[first]);
            let earlier = choose|earlier: int|
                0 <= earlier < rest.len() && rest[earlier] == picked_rest[first];
            let later = rows.len() - 1;
            assert(rows[earlier] == picked[first] && rows[later] == picked[second]);
        }
    }
}

/// A tie keeps the order the rows had: of two rows with equal points, the
/// one that stood earlier among the rows that were ranked stands earlier in
/// the ranking too.
pub proof fn ties_keep_their_order(
    ranking: Seq<ChampionshipStanding>,
    rows: Seq<ChampionshipStanding>,
    earlier: int,
    later: int,
)
    requires
        is_stable_ranking_of(ranking, rows),
        0 <= earlier < later < rows.len(),
        rows[earlier].points == rows[later].points,
    ensures
        exists|before: int, after: int|
            0 <= before < after < ranking.len() && #[trigger] ranking[before] == rows[earlier]
                && #[trigger] ranking[after] == rows[later],
{
    let points = rows[earlier].points;
    picked_rows_keep_their_order(rows, points, earlier, later);
    let first = rows_with(rows.take(earlier), points).len() as int;
    let second = rows_with(rows.take(later), points).len() as int;
    assert(rows_with(ranking, points) == rows_with(rows, points));
    picked_rows_come_in_order(ranking, points, first, second);
}

/// Every row of a ranking is a row of what it ranks, and every row of what
/// it ranks is a row of the ranking.
pub proof fn stable_ranking_keeps_the_rows(
    ranking: Seq<ChampionshipStanding>,
    rows: Seq<ChampionshipStanding>,
)
    requires
        is_stable_ranking_of(ranking, rows),
    ensures
        forall|i: int| 0 <= i < ranking.len() ==> rows.contains(#[trigger] ranking[i]),
        forall|i: int| 0 <= i < rows.len() ==> ranking.contains(#[trigger] rows[i]),
{
    assert forall|i: int| 0 <= i < ranking.len() implies rows.contains(
        #[trigger] ranking[i],
    ) by {
        let points = ranking[i].points;
        ranking.lemma_filter_contains(has_points(points), i);
        assert(rows_with(ranking, points) == rows_with(rows, points));
        rows.lemma_filter_contains_rev(has_points(points), ranking[i]);
    }
    assert forall|i: int| 0 <= i < rows.len() implies ranking.contains(#[trigger] rows[i]) by {
        let points = rows[i].points;
        rows.lemma_filter_contains(has_points(points), i);
        assert(rows_with(ranking, points) == rows_with(rows, points));
        ranking.lemma_filter_contains_rev(has_points(points), rows[i]);
    }
}

/// An event that has not reached its closing week runs on week by week
/// until the week count reaches the closing week; with that step, and no
/// earlier, the event joins the completed ones, once, its successor begins,
/// and the count is back at 1. Nothing else changes on the way.
pub proof fn event_runs_to_its_closing_week(state: TournamentView, weeks: nat)
    requires
        state.current_event.closing_week() is Some,
        state.current_week + weeks <= state.current_event.closing_week()->Some_0,
    ensures
        state.current_week + weeks < state.current_event.closing_week()->Some_0
            ==> state.after_weeks(weeks) == (TournamentView {
            current_week: (state.current_week + weeks) as u8,
            ..state
        }),
        weeks > 0 && state.current_week + weeks == state.current_event.closing_week()->Some_0
            ==> state.after_weeks(weeks) == (TournamentView {
            current_event: state.current_event.successor(),
            current_week: 1,
            events_completed: state.events_completed.push(state.current_event),
            ..state
        }),
    decreases weeks,
{
    if weeks > 0 {
        event_runs_to_its_closing_week(state, (weeks - 1) as nat);
    }
}

/// The last event of the season never ends: week follows week until the
/// week count has reached the highest count there is, where it stays; and
/// nothing else changes.
pub proof fn last_event_has_no_end(state: TournamentView, weeks: nat)
    requires
        state.current_event.closing_week() is None,
    ensures
        state.after_weeks(weeks) == (TournamentView {
            current_week: if state.current_week + weeks <= u8::MAX {
                (state.current_week + weeks) as u8
            } else {
                u8::MAX
            },
            ..state
        }),
    decreases weeks,
{
    if weeks > 0 {
        last_event_has_no_end(state, (weeks - 1) as nat);
    }
}

/// An event whose week count has reached or passed the closing week, however
/// that came about, runs on like the last event: the week count moves up to
/// the highest count there is, and nothing else changes.
pub proof fn overdue_event_runs_on(state: TournamentView, weeks: nat)
    requires
        state.current_event.closing_week() is Some,
        state.current_week >= state.current_event.closing_week()->Some_0,
    ensures
        state.after_weeks(weeks) == (TournamentView {
            current_week: if state.current_week + weeks <= u8::MAX {
                (state.current_week + weeks) as u8
            } else {
                u8::MAX
            },
            ..state
        }),
    decreases weeks,
{
    if weeks > 0 {
        overdue_event_runs_on(state, (weeks - 1) as nat);
    }
}

/// A week never takes an event off the list of completed ones, and moves
/// the season by one event at most.
pub proof fn completed_events_only_grow(state: TournamentView)
    ensures
        state.events_completed.is_prefix_of(state.after_week().events_completed),
        state.after_week().current_event == state.current_event
            || state.after_week().current_event == state.current_event.successor(),
        state.after_week().championship_standings == state.championship_standings,
{
}

/// Who is among the first rows is among the first rows of a longer stretch:
/// a team that qualifies for the Masters qualifies for the Champions.
pub proof fn masters_qualifier_is_champions_qualifier(state: TournamentView, team_id: u128)
    requires
        state.qualifies_for_masters(team_id),
    ensures
        state.qualifies_for_champions(team_id),
{
    let rows = state.championship_standings;
    let at = choose|at: int|
        0 <= at < state.current_event.masters_places() && at < rows.len() && (
        #[trigger] rows[at]).team_id == team_id;
    assert(at < CHAMPIONS_PLACES);
}

/// A team is among the first `places` rows exactly when its first row is.
pub proof fn in_top_goes_by_the_first_row(
    rows: Seq<ChampionshipStanding>,
    places: int,
    team_id: u128,
)
    ensures
        in_top(rows, places, team_id) <==> row_of(rows, team_id) < rows.len() && row_of(
            rows,
            team_id,
        ) < places,
{
    let ids = standing_ids(rows);
    first_index_of_is_first(ids, team_id);
    let first = row_of(rows, team_id);
    if in_top(rows, places, team_id) {
        let at = choose|at: int|
            0 <= at < places && at < rows.len() && (#[trigger] rows[at]).team_id == team_id;
        assert(ids[at] == team_id);
    }
    if first < rows.len() && first < places {
        assert(rows[first].team_id == team_id);
    }
}

/// A match on the calendar, played or still to be played.
#[derive(Debug, Clone)]
pub struct Match {
    pub id: u128,
    pub team1_id: u128,
    pub team2_id: u128,
    pub scheduled_date: GameDate,
    pub map: String,
    pub event: VCTEvent,
    pub completed: bool,
    pub result: Option<MatchResult>,
}

/// What a `Match` holds, as plain values.
pub struct MatchView {
    pub id: u128,
    pub team1_id: u128,
    pub team2_id: u128,
    pub scheduled_date: GameDate,
    pub map: Seq<char>,
    pub event: VCTEvent,
    pub completed: bool,
    pub result: Option<MatchResultView>,
}

impl View for Match {
    type V = MatchView;

    open spec fn view(&self) -> MatchView {
        MatchView {
            id: self.id,
            team1_id: self.team1_id,
            team2_id: self.team2_id,
            scheduled_date: self.scheduled_date,
            map: self.map@,
            event: self.event,
            completed: self.completed,
            result: match self.result {
                Some(result) => Some(result@),
                None => None,
            },
        }
    }
}

impl Match {
    /// Puts a match on the calendar: not played yet, with a random id.
    pub fn new(
        team1_id: u128,
        team2_id: u128,
        scheduled_date: GameDate,
        map: String,
        event: VCTEvent,
    ) -> (scheduled: Self)
        ensures
            scheduled@ == (MatchView {
                id: scheduled.id,
                team1_id,
                team2_id,
                scheduled_date,
                map: map@,
                event,
                completed: false,
                result: None,
            }),
            is_random_uuid(scheduled.id),
    {
        Match {
            id: fresh_id(),
            team1_id,
            team2_id,
            scheduled_date,
            map,
            event,
            completed: false,
            result: None,
        }
    }
}

} // verus!
