//! The catalogue of clubs that a league is founded from.

use vstd::prelude::*;
use vstd::string::*;

verus! {

/// A club of the catalogue: its name, its short name, and its region.
pub type Club = (&'static str, &'static str, &'static str);

/// The ten clubs of the single-region league. Each goes by its full name.
pub const CLASSIC_LEAGUE: [Club; 10] = [
    ("Sentinels", "Sentinels", "Americas"),
    ("Cloud9", "Cloud9", "Americas"),
    ("100 Thieves", "100 Thieves", "Americas"),
    ("TSM", "TSM", "Americas"),
    ("Team Liquid", "Team Liquid", "Americas"),
    ("NRG", "NRG", "Americas"),
    ("Evil Geniuses", "Evil Geniuses", "Americas"),
    ("XSET", "XSET", "Americas"),
    ("The Guard", "The Guard", "Americas"),
    ("OpTic Gaming", "OpTic Gaming", "Americas"),
];

/// The forty-eight clubs of the four regional leagues, region by region.
pub const WORLD_LEAGUE: [Club; 48] = [
    ("100 Thieves", "100T", "Americas"),
    ("2GAME Esports", "2G", "Americas"),
    ("Cloud9", "C9", "Americas"),
    ("Evil Geniuses", "EG", "Americas"),
    ("FURIA", "FUR", "Americas"),
    ("G2 Esports", "G2", "Americas"),
    ("KR\u{dc} Esports", "KRU", "Americas"),
    ("Leviat\u{e1}n", "LEV", "Americas"),
    ("LOUD", "LOUD", "Americas"),
    ("MIBR", "MIBR", "Americas"),
    ("NRG", "NRG", "Americas"),
    ("Sentinels", "SEN", "Americas"),
    ("Apeks", "APX", "EMEA"),
    ("BBL Esports", "BBL", "EMEA"),
    ("Fnatic", "FNC", "EMEA"),
    ("FUT Esports", "FUT", "EMEA"),
    ("Gentle Mates", "M8", "EMEA"),
    ("GIANTX", "GIA", "EMEA"),
    ("Karmine Corp", "KC", "EMEA"),
    ("KOI", "KOI", "EMEA"),
    ("Natus Vincere", "NAVI", "EMEA"),
    ("Team Heretics", "TH", "EMEA"),
    ("Team Liquid", "TL", "EMEA"),
    ("Team Vitality", "VIT", "EMEA"),
    ("BOOM Esports", "BOOM", "Pacific"),
    ("DetonatioN FocusMe", "DFM", "Pacific"),
    ("DRX", "DRX", "Pacific"),
    ("Gen.G Esports", "GENG", "Pacific"),
    ("Global Esports", "GE", "Pacific"),
    ("Nongshim RedForce", "NS", "Pacific"),
    ("Paper Rex", "PRX", "Pacific"),
    ("Rex Regum Qeon", "RRQ", "Pacific"),
    ("T1", "T1", "Pacific"),
    ("TALON", "TLN", "Pacific"),
    ("Team Secret", "TS", "Pacific"),
    ("ZETA DIVISION", "ZETA", "Pacific"),
    ("All Gamers", "AG", "China"),
    ("Bilibili Gaming", "BLG", "China"),
    ("Dragon Ranger Gaming", "DRG", "China"),
    ("EDward Gaming", "EDG", "China"),
    ("FunPlus Phoenix", "FPX", "China"),
    ("JD Gaming", "JDG", "China"),
    ("Nova Esports", "NOVA", "China"),
    ("Titan Esports Club", "TEC", "China"),
    ("Trace Esports", "TE", "China"),
    ("TYLOO", "TYL", "China"),
    ("Wolves Esports", "WOL", "China"),
    ("XLG Esports", "XLG", "China"),
];

/// The forty-eight clubs that a manager can choose from, region by region.
pub const TEAM_CHOICES: [Club; 48] = [
    ("100 Thieves", "100T", "Americas"),
    ("2GAME Esports", "2G", "Americas"),
    ("Cloud9", "C9", "Americas"),
    ("Evil Geniuses", "EG", "Americas"),
    ("FURIA", "FUR", "Americas"),
    ("G2 Esports", "G2", "Americas"),
    ("KR\u{dc} Esports", "KRU", "Americas"),
    ("Leviat\u{e1}n", "LEV", "Americas"),
    ("LOUD", "LOUD", "Americas"),
    ("MIBR", "MIBR", "Americas"),
    ("NRG", "NRG", "Americas"),
    ("Sentinels", "SEN", "Americas"),
    ("Apeks", "APX", "EMEA"),
    ("BBL Esports", "BBL", "EMEA"),
    ("Fnatic", "FNC", "EMEA"),
    ("FUT Esports", "FUT", "EMEA"),
    ("Gentle Mates", "M8", "EMEA"),
    ("GIANTX", "GIA", "EMEA"),
    ("Karmine Corp", "KC", "EMEA"),
    ("KOI", "KOI", "EMEA"),
    ("Natus Vincere", "NAVI", "EMEA"),
    ("Team Heretics", "TH", "EMEA"),
    ("Team Liquid", "TL", "EMEA"),
    ("Team Vitality", "VIT", "EMEA"),
    ("BOOM Esports", "BOOM", "Pacific"),
    ("DetonatioN FocusMe", "DFM", "Pacific"),
    ("DRX", "DRX", "Pacific"),
    ("Gen.G Esports", "GENG", "Pacific"),
    ("Global Esports", "GE", "Pacific"),
    ("Nongshim RedForce", "NS", "Pacific"),
    ("Paper Rex", "PRX", "Pacific"),
    ("Rex Regum Qeon", "RRQ", "Pacific"),
    ("T1", "T1", "Pacific"),
    ("TALON", "TLN", "Pacific"),
    ("Team Secret", "TS", "Pacific"),
    ("ZETA DIVISION", "ZETA", "Pacific"),
    ("All Gamers", "AG", "China"),
    ("Bilibili Gaming", "BLG", "China"),
    ("Dragon Ranger Gaming", "DRG", "China"),
    ("EDward Gaming", "EDG", "China"),
    ("FunPlus Phoenix", "FPX", "China"),
    ("JDG Esports", "JDG", "China"),
    ("Nova Esports", "NOVA", "China"),
    ("Titan Esports Club", "TEC", "China"),
    ("Trace Esports", "TE", "China"),
    ("TYLOO", "TYL", "China"),
    ("Wolves Esports", "WOL", "China"),
    ("Xi Lai Gaming", "XLG", "China"),
];

/// The regions a manager can choose from.
pub const REGIONS: [&'static str; 4] = ["Americas", "EMEA", "Pacific", "China"];

/// A club of a catalogue, as plain values.
pub struct ClubView {
    pub name: Seq<char>,
    pub nickname: Seq<char>,
    pub region: Seq<char>,
}

/// The clubs of a catalogue, each as plain values.
pub open spec fn club_views(clubs: Seq<Club>) -> Seq<ClubView> {
    Seq::new(
        clubs.len(),
        |i: int| ClubView { name: clubs[i].0@, nickname: clubs[i].1@, region: clubs[i].2@ },
    )
}

/// The test that holds of every club but one named `own_name`.
pub open spec fn not_named(own_name: Option<Seq<char>>) -> spec_fn(ClubView) -> bool {
    |club: ClubView| own_name != Some(club.name)
}

/// The clubs of a catalogue that are left for the league when the manager
/// has taken a team named `own_name`: all but those of that name.
pub open spec fn rivals(clubs: Seq<ClubView>, own_name: Option<Seq<char>>) -> Seq<ClubView> {
    clubs.filter(not_named(own_name))
}

/// A club as it is offered to the manager: its name and its short name.
#[derive(Debug, Clone)]
pub struct TeamInfo {
    pub name: String,
    pub nickname: String,
}

/// What a `TeamInfo` holds, as plain values.
pub struct TeamInfoView {
    pub name: Seq<char>,
    pub nickname: Seq<char>,
}

impl View for TeamInfo {
    type V = TeamInfoView;

    open spec fn view(&self) -> TeamInfoView {
        TeamInfoView { name: self.name@, nickname: self.nickname@ }
    }
}

/// The offers of a list, each as plain values.
pub open spec fn team_info_views(offers: Seq<TeamInfo>) -> Seq<TeamInfoView> {
    Seq::new(offers.len(), |i: int| offers[i]@)
}

/// The test that holds of the clubs of `region`.
pub open spec fn in_region(region: Seq<char>) -> spec_fn(ClubView) -> bool {
    |club: ClubView| club.region == region
}

/// The clubs of `clubs` that lie in `region`, in the catalogue's order, as
/// they are offered to the manager.
pub open spec fn offers_in(clubs: Seq<ClubView>, region: Seq<char>) -> Seq<TeamInfoView> {
    clubs.filter(in_region(region)).map_values(
        |club: ClubView| TeamInfoView { name: club.name, nickname: club.nickname },
    )
}

/// The clubs of `region` that a manager can choose from, in the catalogue's order.
pub fn teams_for_choice(region: &str) -> (offers: Vec<TeamInfo>)
    ensures
        team_info_views(offers@) == offers_in(club_views(TEAM_CHOICES@), region@),
{
    let clubs = TEAM_CHOICES.as_slice();
    let wanted = String::from_str(region);
    let mut offers: Vec<TeamInfo> = Vec::new();
    let mut at: usize = 0;
    proof {
        assert(club_views(clubs@.take(0)) =~= Seq::<ClubView>::empty());
        assert(team_info_views(offers@) =~= offers_in(club_views(clubs@.take(0)), region@));
    }
    while at < clubs.len()
        invariant
            at <= clubs@.len(),
            wanted@ == region@,
            team_info_views(offers@) == offers_in(club_views(clubs@.take(at as int)), region@),
        decreases clubs@.len() - at,
    {
        let club: Club = clubs[at];
        let ghost seen = club_views(clubs@.take(at as int));
        let ghost this = ClubView { name: club.0@, nickname: club.1@, region: club.2@ };
        let ghost before = team_info_views(offers@);
        proof {
            assert(club_views(clubs@.take(at + 1)) =~= seen.push(this));
            Seq::lemma_filter_push(seen, this, in_region(region@));
        }
        if String::from_str(club.2) == wanted {
            let offer = TeamInfo {
                name: String::from_str(club.0),
                nickname: String::from_str(club.1),
            };
            offers.push(offer);
            assert(team_info_views(offers@) =~= before.push(
                TeamInfoView { name: this.name, nickname: this.nickname },
            ));
            assert(offers_in(seen.push(this), region@) =~= offers_in(seen, region@).push(
                TeamInfoView { name: this.name, nickname: this.nickname },
            ));
        }
        at = at + 1;
    }
    assert(clubs@.take(at as int) =~= clubs@);
    offers
}

} // verus!
