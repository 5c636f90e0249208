//! The schedule as the league's statistics service reports it, and its
//! conversion into games and promotions.

use vstd::prelude::*;
use crate::models::{Game, Promotion};
use crate::text::{decimal, decimal_text, or_else};

verus! {

/// The state of a reported game.
pub struct GameStatus {
    pub abstract_game_state: String,
    pub detailed_state: String,
    pub status_code: String,
    pub start_time_tbd: Option<bool>,
}

/// A team by id and name.
pub struct TeamInfo {
    pub id: i64,
    pub name: String,
}

/// One side of a game.
pub struct TeamSide {
    pub team: TeamInfo,
    pub score: Option<i64>,
    pub is_winner: Option<bool>,
}

/// The two sides of a game.
pub struct Teams {
    pub away: TeamSide,
    pub home: TeamSide,
}

/// Where a game is played.
pub struct Venue {
    pub id: i64,
    pub name: String,
}

/// A promotion as reported with its game.
pub struct ApiPromotion {
    pub offer_id: i64,
    pub name: String,
    pub offer_type: Option<String>,
    pub description: Option<String>,
    pub distribution: Option<String>,
    pub presented_by: Option<String>,
    pub alt_page_url: Option<String>,
    pub tlink: Option<String>,
    pub thumbnail_url: Option<String>,
    pub image_url: Option<String>,
    pub order: i64,
}

/// A game as reported.
pub struct ApiGame {
    pub game_pk: i64,
    pub game_guid: Option<String>,
    pub game_type: String,
    pub season: String,
    pub game_date: String,
    pub official_date: String,
    pub status: GameStatus,
    pub teams: Teams,
    pub venue: Venue,
    pub is_tie: Option<bool>,
    pub game_number: Option<i64>,
    pub double_header: Option<String>,
    pub day_night: Option<String>,
    pub scheduled_innings: Option<i64>,
    pub games_in_series: Option<i64>,
    pub series_game_number: Option<i64>,
    pub series_description: Option<String>,
    pub promotions: Vec<ApiPromotion>,
}

/// The games of one day.
pub struct DateEntry {
    pub games: Vec<ApiGame>,
}

/// A whole reported schedule.
pub struct ScheduleResponse {
    pub dates: Vec<DateEntry>,
}

/// The games and promotions of a schedule.
pub struct ScheduleData {
    pub games: Vec<Game>,
    pub promotions: Vec<Promotion>,
}

/// Whether `game` is the stored form of the report `g`: the report's fields
/// under the store's names, a missing start-time flag or tie flag read as
/// false, a missing game number as 1, missing innings as 9, and a missing
/// double-header mark as "N".
pub open spec fn is_game_of(game: Game, g: ApiGame) -> bool {
    &&& game.game_pk == g.game_pk
    &&& game.game_guid == g.game_guid
    &&& game.game_type == g.game_type
    &&& game.season == g.season
    &&& game.game_date == g.game_date
    &&& game.official_date == g.official_date
    &&& game.status_abstract == g.status.abstract_game_state
    &&& game.status_detailed == g.status.detailed_state
    &&& game.status_code == g.status.status_code
    &&& game.start_time_tbd == or_else(g.status.start_time_tbd, false)
    &&& game.away_team_id == g.teams.away.team.id
    &&& game.away_team_name == g.teams.away.team.name
    &&& game.away_score == g.teams.away.score
    &&& game.away_is_winner == g.teams.away.is_winner
    &&& game.home_team_id == g.teams.home.team.id
    &&& game.home_team_name == g.teams.home.team.name
    &&& game.home_score == g.teams.home.score
    &&& game.home_is_winner == g.teams.home.is_winner
    &&& game.venue_id == g.venue.id
    &&& game.venue_name == g.venue.name
    &&& game.day_night == g.day_night
    &&& game.series_description == g.series_description
    &&& game.series_game_number == g.series_game_number
    &&& game.games_in_series == g.games_in_series
    &&& match g.double_header {
        Some(mark) => game.double_header == mark,
        None => game.double_header@ == "N"@,
    }
    &&& game.game_number == or_else(g.game_number, 1)
    &&& game.scheduled_innings == or_else(g.scheduled_innings, 9)
    &&& game.is_tie == or_else(g.is_tie, false)
}

impl Game {
    /// The stored form of a reported game. The promotions that came with the
    /// report are not part of it.
    pub fn from_api(g: ApiGame) -> (game: Game)
        ensures
            is_game_of(game, g),
    {
        let double_header = match g.double_header {
            Some(mark) => mark,
            None => String::from_str("N"),
        };
        Game {
            game_pk: g.game_pk,
            game_guid: g.game_guid,
            game_type: g.game_type,
            season: g.season,
            game_date: g.game_date,
            official_date: g.official_date,
            status_abstract: g.status.abstract_game_state,
            status_detailed: g.status.detailed_state,
            status_code: g.status.status_code,
            start_time_tbd: match g.status.start_time_tbd {
                Some(b) => b,
                None => false,
            },
            away_team_id: g.teams.away.team.id,
            away_team_name: g.teams.away.team.name,
            away_score: g.teams.away.score,
            away_is_winner: g.teams.away.is_winner,
            home_team_id: g.teams.home.team.id,
            home_team_name: g.teams.home.team.name,
            home_score: g.teams.home.score,
            home_is_winner: g.teams.home.is_winner,
            venue_id: g.venue.id,
            venue_name: g.venue.name,
            day_night: g.day_night,
            series_description: g.series_description,
            series_game_number: g.series_game_number,
            games_in_series: g.games_in_series,
            double_header,
            game_number: match g.game_number {
                Some(n) => n,
                None => 1,
            },
            scheduled_innings: match g.scheduled_innings {
                Some(n) => n,
                None => 9,
            },
            is_tie: match g.is_tie {
                Some(b) => b,
                None => false,
            },
        }
    }
}

/// The stored form of a promotion reported with game `game_pk`.
pub open spec fn promotion_of(game_pk: i64, p: ApiPromotion) -> Promotion {
    Promotion {
        offer_id: p.offer_id,
        game_pk,
        name: p.name,
        offer_type: p.offer_type,
        description: p.description,
        distribution: p.distribution,
        presented_by: p.presented_by,
        alt_page_url: p.alt_page_url,
        ticket_link: p.tlink,
        thumbnail_url: p.thumbnail_url,
        image_url: p.image_url,
        display_order: p.order,
    }
}

/// The stored form of the promotions reported with game `game_pk`, in their
/// order.
pub open spec fn promotions_of(game_pk: i64, reported: Seq<ApiPromotion>) -> Seq<Promotion> {
    reported.map_values(|p: ApiPromotion| promotion_of(game_pk, p))
}

/// The stored form of the promotions reported with game `game_pk`, in their
/// order.
pub fn convert_promotions(game_pk: i64, api_promos: Vec<ApiPromotion>) -> (promos: Vec<Promotion>)
    ensures
        promos@ == promotions_of(game_pk, api_promos@),
{
    let mut promos: Vec<Promotion> = Vec::new();
    for p in it: api_promos.into_iter()
        invariant
            it.seq() == api_promos@,
            promos@.len() == it.index(),
            forall|j: int|
                0 <= j < promos@.len() ==> promos@[j] == promotion_of(game_pk, api_promos@[j]),
    {
        promos.push(
            Promotion {
                offer_id: p.offer_id,
                game_pk,
                name: p.name,
                offer_type: p.offer_type,
                description: p.description,
                distribution: p.distribution,
                presented_by: p.presented_by,
                alt_page_url: p.alt_page_url,
                ticket_link: p.tlink,
                thumbnail_url: p.thumbnail_url,
                image_url: p.image_url,
                display_order: p.order,
            },
        );
    }
    assert(promos@ =~= promotions_of(game_pk, api_promos@));
    promos
}

/// The games of a report, day after day.
pub open spec fn reported_games(dates: Seq<DateEntry>) -> Seq<ApiGame>
    decreases dates.len(),
{
    if dates.len() == 0 {
        Seq::empty()
    } else {
        reported_games(dates.drop_last()) + dates.last().games@
    }
}

/// The promotions of reported games, game after game.
pub open spec fn reported_promotions(games: Seq<ApiGame>) -> Seq<Promotion>
    decreases games.len(),
{
    if games.len() == 0 {
        Seq::empty()
    } else {
        reported_promotions(games.drop_last()) + promotions_of(
            games.last().game_pk,
            games.last().promotions@,
        )
    }
}

/// Whether `games` are the stored forms of the reported games, in order.
pub open spec fn are_games_of(games: Seq<Game>, reported: Seq<ApiGame>) -> bool {
    &&& games.len() == reported.len()
    &&& forall|k: int| 0 <= k < games.len() ==> is_game_of(#[trigger] games[k], reported[k])
}

/// The games and promotions of a reported schedule, in the order of the report.
pub fn collect_schedule(resp: ScheduleResponse) -> (data: ScheduleData)
    ensures
        are_games_of(data.games@, reported_games(resp.dates@)),
        data.promotions@ == reported_promotions(reported_games(resp.dates@)),
{
    let mut games: Vec<Game> = Vec::new();
    let mut promotions: Vec<Promotion> = Vec::new();
    let ghost all_dates = resp.dates@;
    for date_entry in days: resp.dates.into_iter()
        invariant
            days.seq() == all_dates,
            are_games_of(games@, reported_games(all_dates.take(days.index() as int))),
            promotions@ == reported_promotions(
                reported_games(all_dates.take(days.index() as int)),
            ),
    {
        let ghost d = days.index() as int;
        let ghost before = reported_games(all_dates.take(d));
        let ghost today = date_entry.games@;
        assert(all_dates.take(d + 1).drop_last() =~= all_dates.take(d));
        assert(reported_games(all_dates.take(d + 1)) == before + today);
        assert(before + today.take(0) =~= before);
        for api_game in it: date_entry.games.into_iter()
            invariant
                it.seq() == today,
                are_games_of(games@, before + today.take(it.index() as int)),
                promotions@ == reported_promotions(before + today.take(it.index() as int)),
        {
            let ghost k = it.index() as int;
            let ghost sofar = before + today.take(k);
            let ghost next = before + today.take(k + 1);
            assert(next.drop_last() =~= sofar);
            assert(next.last() == today[k]);
            let mut g = api_game;
            let mut promos: Vec<ApiPromotion> = Vec::new();
            core::mem::swap(&mut g.promotions, &mut promos);
            let game_pk = g.game_pk;
            let mut converted = convert_promotions(game_pk, promos);
            promotions.append(&mut converted);
            let game = Game::from_api(g);
            assert(is_game_of(game, today[k]));
            games.push(game);
            assert forall|j: int| 0 <= j < games@.len() implies is_game_of(
                #[trigger] games@[j],
                next[j],
            ) by {
                if j < sofar.len() {
                    assert(next[j] == sofar[j]);
                }
            }
        }
        assert(today.take(today.len() as int) =~= today);
    }
    assert(all_dates.take(all_dates.len() as int) =~= all_dates);
    ScheduleData { games, promotions }
}

/// The address from which the schedule of a season is fetched.
pub open spec fn schedule_address(season: u32) -> Seq<char> {
    "https://statsapi.mlb.com/api/v1/schedule?teamId=137&season="@ + decimal(season as nat)
        + "&sportId=1&gameType=R&hydrate=game(promotions)"@
}

/// The address from which the schedule of a season is fetched.
pub fn schedule_url(season: u32) -> (url: String)
    ensures
        url@ == schedule_address(season),
{
    let mut url = String::from_str("https://statsapi.mlb.com/api/v1/schedule?teamId=137&season=");
    let year = decimal_text(season as u64);
    url.append(year.as_str());
    url.append("&sportId=1&gameType=R&hydrate=game(promotions)");
    url
}

} // verus!
