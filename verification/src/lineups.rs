//! Team lineups as the match poller sends them, and the forms in which a
//! fixture keeps and shows them.

use vstd::prelude::*;
use crate::text::concat;
use crate::games::{PlayerPayload, Player, map_players};

verus! {

/// A player as the poller sends it; `lineup` marks a starter.
#[derive(Debug, Clone)]
pub struct RawPlayer {
    pub name: String,
    pub position: String,
    pub jersey_number: i32,
    pub captain: bool,
    pub lineup: bool,
    pub player_id: Option<String>,
}

/// A coach as the poller sends it.
#[derive(Debug, Clone)]
pub struct RawCoach {
    pub name: String,
    pub country: Option<String>,
}

/// One team's lineup as the poller sends it.
#[derive(Debug, Clone)]
pub struct RawTeamLineup {
    pub formation: String,
    pub players: Vec<RawPlayer>,
    pub bench: Vec<RawPlayer>,
    pub coach: RawCoach,
}

/// Both teams' lineups.
#[derive(Debug, Clone)]
pub struct RawLineupsData {
    pub home: RawTeamLineup,
    pub away: RawTeamLineup,
}

/// The poller's lineup message for a fixture.
#[derive(Debug, Clone)]
pub struct LineupsUpdateRequest {
    pub fixture_id: String,
    pub lineups: RawLineupsData,
    pub timestamp: String,
}

/// A player in a stored lineup.
#[derive(Debug, Clone)]
pub struct LineupPlayer {
    pub name: String,
    pub position: String,
    pub jersey_number: i32,
    pub captain: bool,
    pub lineup: bool,
    pub player_id: Option<String>,
    pub rating: Option<i32>,
}

/// A stored starter keeps what was sent, with no rating yet.
pub open spec fn spec_starter(p: RawPlayer, q: LineupPlayer) -> bool {
    &&& q.name == p.name && q.position == p.position && q.jersey_number == p.jersey_number
    &&& q.captain == p.captain && q.lineup == p.lineup && q.player_id == p.player_id && q.rating is None
}

/// A stored substitute keeps what was sent, but is never captain or in the
/// lineup, and has no rating yet.
pub open spec fn spec_substitute(p: RawPlayer, q: LineupPlayer) -> bool {
    &&& q.name == p.name && q.position == p.position && q.jersey_number == p.jersey_number
    &&& !q.captain && !q.lineup && q.player_id == p.player_id && q.rating is None
}

/// The sent players marked as starters.
pub open spec fn starters(p: Seq<RawPlayer>) -> Seq<RawPlayer> {
    p.filter(|x: RawPlayer| x.lineup)
}

/// The starting eleven: the sent players marked as starters, in order.
pub fn starting_xi(players: &Vec<RawPlayer>) -> (r: Vec<LineupPlayer>)
    ensures
        r@.len() == starters(players@).len(),
        forall|i: int| 0 <= i < r@.len() ==> spec_starter(starters(players@)[i], #[trigger] r@[i]),
{
    let ghost pred = |x: RawPlayer| x.lineup;
    let mut r: Vec<LineupPlayer> = Vec::new();
    let mut i: usize = 0;
    while i < players.len()
        invariant
            i <= players@.len(),
            pred == (|x: RawPlayer| x.lineup),
            r@.len() == players@.take(i as int).filter(pred).len(),
            forall|k: int| 0 <= k < r@.len() ==> spec_starter(players@.take(i as int).filter(pred)[k], #[trigger] r@[k]),
        decreases players.len() - i,
    {
        proof {
            reveal_with_fuel(Seq::<_>::filter, 1);
            assert(players@.take(i + 1).drop_last() =~= players@.take(i as int));
            assert(players@.take(i + 1).last() == players@[i as int]);
        }
        let p = &players[i];
        if p.lineup {
            r.push(LineupPlayer {
                name: p.name.clone(),
                position: p.position.clone(),
                jersey_number: p.jersey_number,
                captain: p.captain,
                lineup: p.lineup,
                player_id: crate::bets::clone_opt(&p.player_id),
                rating: None,
            });
        }
        i = i + 1;
    }
    proof {
        assert(players@.take(players@.len() as int) =~= players@);
    }
    r
}

/// The bench: every sent substitute, in order.
pub fn bench_players(players: &Vec<RawPlayer>) -> (r: Vec<LineupPlayer>)
    ensures
        r@.len() == players@.len(),
        forall|i: int| 0 <= i < r@.len() ==> spec_substitute(players@[i], #[trigger] r@[i]),
{
    let mut r: Vec<LineupPlayer> = Vec::new();
    let mut i: usize = 0;
    while i < players.len()
        invariant
            i <= players@.len(),
            r@.len() == i,
            forall|k: int| 0 <= k < i ==> spec_substitute(players@[k], #[trigger] r@[k]),
        decreases players.len() - i,
    {
        let p = &players[i];
        r.push(LineupPlayer {
            name: p.name.clone(),
            position: p.position.clone(),
            jersey_number: p.jersey_number,
            captain: false,
            lineup: false,
            player_id: crate::bets::clone_opt(&p.player_id),
            rating: None,
        });
        i = i + 1;
    }
    r
}

/// The lineups a fixture keeps.
#[derive(Debug, Clone)]
pub struct LineupsDocument {
    pub id: String,
    pub match_id: String,
    pub home_team: String,
    pub away_team: String,
    pub home_formation: String,
    pub away_formation: String,
    pub home_coach: String,
    pub away_coach: String,
    pub home_starting_xi: Vec<LineupPlayer>,
    pub home_bench: Vec<LineupPlayer>,
    pub away_starting_xi: Vec<LineupPlayer>,
    pub away_bench: Vec<LineupPlayer>,
}

/// A team name read from the fixture, `Unknown` when it is missing.
pub open spec fn team_or_unknown(t: Option<String>) -> Seq<char> {
    match t {
        Some(s) => s@,
        None => "Unknown"@,
    }
}

/// The stored lineups of an update, given the team names read from the
/// fixture (each `None` when missing or the fixture is not found): keyed
/// `lineup_<fixture>`, with formations and coaches as sent, the starters
/// and the bench of each side.
pub fn lineups_document(update: &LineupsUpdateRequest, home_team: &Option<String>, away_team: &Option<String>) -> (d: LineupsDocument)
    ensures
        d.id@ == "lineup_"@ + update.fixture_id@,
        d.match_id@ == update.fixture_id@,
        d.home_team@ == team_or_unknown(*home_team),
        d.away_team@ == team_or_unknown(*away_team),
        d.home_formation@ == update.lineups.home.formation@,
        d.away_formation@ == update.lineups.away.formation@,
        d.home_coach@ == update.lineups.home.coach.name@,
        d.away_coach@ == update.lineups.away.coach.name@,
        d.home_starting_xi@.len() == starters(update.lineups.home.players@).len(),
        forall|i: int| 0 <= i < d.home_starting_xi@.len()
            ==> spec_starter(starters(update.lineups.home.players@)[i], #[trigger] d.home_starting_xi@[i]),
        d.away_starting_xi@.len() == starters(update.lineups.away.players@).len(),
        forall|i: int| 0 <= i < d.away_starting_xi@.len()
            ==> spec_starter(starters(update.lineups.away.players@)[i], #[trigger] d.away_starting_xi@[i]),
        d.home_bench@.len() == update.lineups.home.bench@.len(),
        forall|i: int| 0 <= i < d.home_bench@.len() ==> spec_substitute(update.lineups.home.bench@[i], #[trigger] d.home_bench@[i]),
        d.away_bench@.len() == update.lineups.away.bench@.len(),
        forall|i: int| 0 <= i < d.away_bench@.len() ==> spec_substitute(update.lineups.away.bench@[i], #[trigger] d.away_bench@[i]),
{
    proof {
        reveal_strlit("Unknown");
    }
    LineupsDocument {
        id: concat("lineup_", update.fixture_id.as_str()),
        match_id: update.fixture_id.clone(),
        home_team: match home_team { Some(t) => t.clone(), None => String::from_str("Unknown") },
        away_team: match away_team { Some(t) => t.clone(), None => String::from_str("Unknown") },
        home_formation: update.lineups.home.formation.clone(),
        away_formation: update.lineups.away.formation.clone(),
        home_coach: update.lineups.home.coach.name.clone(),
        away_coach: update.lineups.away.coach.name.clone(),
        home_starting_xi: starting_xi(&update.lineups.home.players),
        home_bench: bench_players(&update.lineups.home.bench),
        away_starting_xi: starting_xi(&update.lineups.away.players),
        away_bench: bench_players(&update.lineups.away.bench),
    }
}

/// A player as the quick lineup view shows it.
#[derive(Debug, Clone)]
pub struct SimplifiedPlayer {
    pub name: String,
    pub position: String,
    pub number: i32,
    pub captain: bool,
}

/// The quick lineup view: formations, coaches and starting elevens.
#[derive(Debug, Clone)]
pub struct SimplifiedLineups {
    pub home_formation: String,
    pub away_formation: String,
    pub home_coach: String,
    pub away_coach: String,
    pub home_starting_xi: Vec<SimplifiedPlayer>,
    pub away_starting_xi: Vec<SimplifiedPlayer>,
}

/// A stored player as the quick view shows it.
pub fn simplified_player(p: &LineupPlayer) -> (s: SimplifiedPlayer)
    ensures
        s.name@ == p.name@ && s.position@ == p.position@ && s.number == p.jersey_number && s.captain == p.captain,
{
    SimplifiedPlayer { name: p.name.clone(), position: p.position.clone(), number: p.jersey_number, captain: p.captain }
}

fn simplified_list(v: &Vec<LineupPlayer>) -> (r: Vec<SimplifiedPlayer>)
    ensures
        r@.len() == v@.len(),
        forall|i: int| 0 <= i < r@.len() ==> (#[trigger] r@[i]).name@ == v@[i].name@ && r@[i].position@ == v@[i].position@
            && r@[i].number == v@[i].jersey_number && r@[i].captain == v@[i].captain,
{
    let mut r: Vec<SimplifiedPlayer> = Vec::new();
    let mut i: usize = 0;
    while i < v.len()
        invariant
            i <= v@.len(),
            r@.len() == i,
            forall|k: int| 0 <= k < i ==> (#[trigger] r@[k]).name@ == v@[k].name@ && r@[k].position@ == v@[k].position@
                && r@[k].number == v@[k].jersey_number && r@[k].captain == v@[k].captain,
        decreases v.len() - i,
    {
        r.push(simplified_player(&v[i]));
        i = i + 1;
    }
    r
}

/// The quick view of stored lineups.
pub fn simplify_lineups(d: &LineupsDocument) -> (s: SimplifiedLineups)
    ensures
        s.home_formation@ == d.home_formation@ && s.away_formation@ == d.away_formation@,
        s.home_coach@ == d.home_coach@ && s.away_coach@ == d.away_coach@,
        s.home_starting_xi@.len() == d.home_starting_xi@.len(),
        s.away_starting_xi@.len() == d.away_starting_xi@.len(),
        forall|i: int| 0 <= i < s.home_starting_xi@.len() ==> (#[trigger] s.home_starting_xi@[i]).name@ == d.home_starting_xi@[i].name@
            && s.home_starting_xi@[i].number == d.home_starting_xi@[i].jersey_number
            && s.home_starting_xi@[i].position@ == d.home_starting_xi@[i].position@
            && s.home_starting_xi@[i].captain == d.home_starting_xi@[i].captain,
        forall|i: int| 0 <= i < s.away_starting_xi@.len() ==> (#[trigger] s.away_starting_xi@[i]).name@ == d.away_starting_xi@[i].name@
            && s.away_starting_xi@[i].number == d.away_starting_xi@[i].jersey_number
            && s.away_starting_xi@[i].position@ == d.away_starting_xi@[i].position@
            && s.away_starting_xi@[i].captain == d.away_starting_xi@[i].captain,
{
    SimplifiedLineups {
        home_formation: d.home_formation.clone(),
        away_formation: d.away_formation.clone(),
        home_coach: d.home_coach.clone(),
        away_coach: d.away_coach.clone(),
        home_starting_xi: simplified_list(&d.home_starting_xi),
        away_starting_xi: simplified_list(&d.away_starting_xi),
    }
}

/// A coach as a fixture's lineup message sends it.
#[derive(Debug, Clone)]
pub struct CoachPayload {
    pub name: String,
}

/// One team's lineup in a fixture's lineup message.
#[derive(Debug, Clone)]
pub struct TeamLineupPayload {
    pub formation: String,
    pub coach: CoachPayload,
    pub players: Vec<PlayerPayload>,
    pub bench: Vec<PlayerPayload>,
}

/// Both teams' lineups in a fixture's lineup message.
#[derive(Debug, Clone)]
pub struct LineupsPayload {
    pub home: TeamLineupPayload,
    pub away: TeamLineupPayload,
}

/// A fixture's lineup message.
#[derive(Debug, Clone)]
pub struct LineupsUpdate {
    pub fixture_id: String,
    pub home_team: String,
    pub away_team: String,
    pub lineups: LineupsPayload,
}

/// One team's lineup as a fixture embeds it.
#[derive(Debug, Clone)]
pub struct TeamLineup {
    pub formation: String,
    pub coach: String,
    pub players: Vec<Player>,
    pub bench: Vec<Player>,
}

/// One team's embedded lineup: the players default to the `starting`
/// lineup, the bench to `bench`.
pub fn team_lineup(t: &TeamLineupPayload) -> (r: TeamLineup)
    ensures
        r.formation@ == t.formation@,
        r.coach@ == t.coach.name@,
        r.players@.len() == t.players@.len(),
        forall|i: int| 0 <= i < r.players@.len() ==> crate::games::spec_player(t.players@[i], #[trigger] r.players@[i], "starting"@),
        r.bench@.len() == t.bench@.len(),
        forall|i: int| 0 <= i < r.bench@.len() ==> crate::games::spec_player(t.bench@[i], #[trigger] r.bench@[i], "bench"@),
{
    TeamLineup {
        formation: t.formation.clone(),
        coach: t.coach.name.clone(),
        players: map_players(clone_payloads(&t.players), "starting"),
        bench: map_players(clone_payloads(&t.bench), "bench"),
    }
}

fn clone_payloads(v: &Vec<PlayerPayload>) -> (r: Vec<PlayerPayload>)
    ensures
        r@ == v@,
{
    let mut r: Vec<PlayerPayload> = Vec::new();
    let mut i: usize = 0;
    while i < v.len()
        invariant
            i <= v@.len(),
            r@ == v@.take(i as int),
        decreases v.len() - i,
    {
        let p = &v[i];
        r.push(PlayerPayload {
            name: p.name.clone(),
            position: p.position.clone(),
            jersey_number: p.jersey_number,
            captain: p.captain,
            lineup: p.lineup.clone(),
            player_id: crate::bets::clone_opt(&p.player_id),
        });
        proof {
            assert(r@ =~= v@.take(i + 1));
        }
        i = i + 1;
    }
    proof {
        assert(v@.take(v@.len() as int) =~= v@);
    }
    r
}

} // verus!
