//! Games and promotions as the schedule importer supplies them.

use vstd::prelude::*;
use crate::error::EngineError;
use crate::feed::ScheduleData;
use crate::games::{
    find_game, has_game, lemma_upsert_game_ok, upsert_game_in, upsert_game_rows,
};
use crate::models::{Game, Promotion};
use crate::promotions::{
    lemma_upsert_promotion_ok, upsert_promotion_in, upsert_promotion_rows,
};
use crate::store::inventory::{
    after_generation_for_all, generate_all_refusal, generate_tickets_for_all_seats,
};
use crate::store::{Store, StoreView};

verus! {

/// Records a game: a game whose key is known is refreshed, another is added.
pub fn upsert_game(store: &mut Store, game: &Game)
    requires
        old(store).wf(),
    ensures
        final(store).wf(),
        final(store)@ == (StoreView {
            games: upsert_game_rows(old(store)@.games, *game),
            ..old(store)@
        }),
{
    proof {
        lemma_upsert_game_ok(store@.games, *game);
    }
    upsert_game_in(&mut store.games, game);
}

/// Records a promotion: it replaces the promotion with its key, or is added.
pub fn upsert_promotion(store: &mut Store, promo: &Promotion)
    requires
        old(store).wf(),
    ensures
        final(store).wf(),
        final(store)@ == (StoreView {
            promotions: upsert_promotion_rows(old(store)@.promotions, *promo),
            ..old(store)@
        }),
{
    proof {
        lemma_upsert_promotion_ok(store@.promotions, *promo);
    }
    upsert_promotion_in(&mut store.promotions, promo);
}

/// The game with the key, if there is one.
pub fn get_game(store: &Store, game_pk: i64) -> (r: Option<Game>)
    ensures
        r is Some == has_game(store@.games, game_pk),
        r is Some ==> store@.games.contains(r->0) && r->0.game_pk == game_pk,
{
    match find_game(&store.games, game_pk) {
        Some(at) => {
            let game = store.games[at].clone();
            assert(store.games@[at as int] == game);
            Some(game)
        },
        None => None,
    }
}

/// The games after each report was recorded in turn.
pub open spec fn games_after(games: Seq<Game>, reports: Seq<Game>) -> Seq<Game>
    decreases reports.len(),
{
    if reports.len() == 0 {
        games
    } else {
        upsert_game_rows(games_after(games, reports.drop_last()), reports.last())
    }
}

/// The promotions after each report was recorded in turn.
pub open spec fn promotions_after(rows: Seq<Promotion>, reports: Seq<Promotion>) -> Seq<Promotion>
    decreases reports.len(),
{
    if reports.len() == 0 {
        rows
    } else {
        upsert_promotion_rows(promotions_after(rows, reports.drop_last()), reports.last())
    }
}

/// The store after the games and promotions of a schedule were recorded.
pub open spec fn after_reports(v: StoreView, games: Seq<Game>, promotions: Seq<Promotion>) -> StoreView {
    StoreView {
        games: games_after(v.games, games),
        promotions: promotions_after(v.promotions, promotions),
        ..v
    }
}

/// How much an import brought.
#[derive(Clone, Copy, Debug, PartialEq, Eq, Structural)]
pub struct ImportCounts {
    /// The games that were reported.
    pub games: usize,
    /// The promotions that were reported.
    pub promotions: usize,
    /// The tickets that were issued for the seats of the pool.
    pub tickets: u64,
}

/// Records a schedule, then issues for every seat the tickets of the home
/// games that have none for it yet.
///
/// Where the ticket ids do not suffice for the tickets that are owed, the
/// games and promotions are recorded all the same, and no ticket is issued.
pub fn import_schedule(store: &mut Store, data: &ScheduleData) -> (r: Result<ImportCounts, EngineError>)
    requires
        old(store).wf(),
    ensures
        final(store).wf(),
        ({
            let recorded = after_reports(old(store)@, data.games@, data.promotions@);
            match r {
                Ok(counts) => {
                    &&& generate_all_refusal(recorded) is None
                    &&& counts == (ImportCounts {
                        games: data.games@.len() as usize,
                        promotions: data.promotions@.len() as usize,
                        tickets: (after_generation_for_all(recorded).tickets.len()
                            - recorded.tickets.len()) as u64,
                    })
                    &&& final(store)@ == after_generation_for_all(recorded)
                },
                Err(e) => {
                    &&& generate_all_refusal(recorded) == Some(e)
                    &&& final(store)@ == recorded
                },
            }
        }),
{
    let ghost v0 = store@;
    let ng = data.games.len();
    let mut i: usize = 0;
    while i < ng
        invariant
            0 <= i <= ng,
            ng == data.games@.len(),
            store.wf(),
            store@ == (StoreView { games: games_after(v0.games, data.games@.take(i as int)), ..v0 }),
        decreases ng - i,
    {
        assert(data.games@.take(i as int + 1).drop_last() =~= data.games@.take(i as int));
        upsert_game(store, &data.games[i]);
        i += 1;
    }
    assert(data.games@.take(ng as int) =~= data.games@);
    let ghost v1 = store@;
    let np = data.promotions.len();
    let mut j: usize = 0;
    while j < np
        invariant
            0 <= j <= np,
            np == data.promotions@.len(),
            store.wf(),
            store@ == (StoreView {
                promotions: promotions_after(v0.promotions, data.promotions@.take(j as int)),
                ..v1
            }),
        decreases np - j,
    {
        assert(data.promotions@.take(j as int + 1).drop_last() =~= data.promotions@.take(j as int));
        upsert_promotion(store, &data.promotions[j]);
        j += 1;
    }
    assert(data.promotions@.take(np as int) =~= data.promotions@);
    match generate_tickets_for_all_seats(store) {
        Ok(tickets) => Ok(ImportCounts { games: ng, promotions: np, tickets }),
        Err(e) => Err(e),
    }
}

} // verus!
