//! The game table, keyed by `game_pk`.

use vstd::prelude::*;
use crate::models::Game;
use crate::seqs::all_distinct;
use crate::text::clone_opt_text;

verus! {

/// Whether a game carries the key.
pub open spec fn has_game(games: Seq<Game>, game_pk: i64) -> bool {
    exists|i: int| 0 <= i < games.len() && (#[trigger] games[i]).game_pk == game_pk
}

/// Whether a home game of the managed team carries the key.
pub open spec fn has_home_game(games: Seq<Game>, game_pk: i64) -> bool {
    exists|i: int|
        0 <= i < games.len() && (#[trigger] games[i]).game_pk == game_pk && games[i].is_home()
}

/// The stored game `old` after a later report `new` of the same game: the
/// fields that change while a game is played are taken from the report, the
/// rest stay.
pub open spec fn refreshed(old: Game, new: Game) -> Game {
    Game {
        game_guid: new.game_guid,
        game_date: new.game_date,
        status_abstract: new.status_abstract,
        status_detailed: new.status_detailed,
        status_code: new.status_code,
        start_time_tbd: new.start_time_tbd,
        away_score: new.away_score,
        away_is_winner: new.away_is_winner,
        home_score: new.home_score,
        home_is_winner: new.home_is_winner,
        day_night: new.day_night,
        is_tie: new.is_tie,
        ..old
    }
}

/// The games after `game` is recorded: refreshed where its key is known, added
/// at the end where it is not.
pub open spec fn upsert_game_rows(games: Seq<Game>, game: Game) -> Seq<Game> {
    if has_game(games, game.game_pk) {
        games.map_values(
            |g: Game|
                if g.game_pk == game.game_pk {
                    refreshed(g, game)
                } else {
                    g
                },
        )
    } else {
        games.push(game)
    }
}

/// What the table requires of its rows: no key occurs twice.
pub open spec fn games_ok(games: Seq<Game>) -> bool {
    forall|i: int, j: int|
        0 <= i < j < games.len() ==> (#[trigger] games[i]).game_pk != (#[trigger] games[j]).game_pk
}

/// The place of the game with the key, if there is one.
pub fn find_game(games: &Vec<Game>, game_pk: i64) -> (r: Option<usize>)
    ensures
        r is Some == has_game(games@, game_pk),
        r is Some ==> r->0 < games@.len() && games@[r->0 as int].game_pk == game_pk,
{
    let n = games.len();
    let mut i: usize = 0;
    while i < n
        invariant
            0 <= i <= n,
            n == games@.len(),
            forall|j: int| 0 <= j < i ==> games@[j].game_pk != game_pk,
        decreases n - i,
    {
        if games[i].game_pk == game_pk {
            return Some(i);
        }
        i += 1;
    }
    None
}

/// Records `game`.
pub fn upsert_game_in(games: &mut Vec<Game>, game: &Game)
    ensures
        final(games)@ == upsert_game_rows(old(games)@, *game),
{
    let n = games.len();
    let mut found = false;
    let mut i: usize = 0;
    let ghost goal = old(games)@.map_values(
        |g: Game|
            if g.game_pk == game.game_pk {
                refreshed(g, *game)
            } else {
                g
            },
    );
    while i < n
        invariant
            0 <= i <= n,
            n == old(games)@.len(),
            games@.len() == n,
            forall|j: int|
                0 <= j < i ==> games@[j] == (if old(games)@[j].game_pk == game.game_pk {
                    refreshed(old(games)@[j], *game)
                } else {
                    old(games)@[j]
                }),
            forall|j: int| i <= j < n ==> games@[j] == old(games)@[j],
            found == has_game(old(games)@.take(i as int), game.game_pk),
        decreases n - i,
    {
        let ghost before = old(games)@.take(i as int);
        let ghost after = old(games)@.take(i as int + 1);
        assert(forall|j: int| 0 <= j < i ==> before[j] == after[j]);
        if games[i].game_pk == game.game_pk {
            let g = &mut games[i];
            g.game_guid = clone_opt_text(&game.game_guid);
            g.game_date = game.game_date.clone();
            g.status_abstract = game.status_abstract.clone();
            g.status_detailed = game.status_detailed.clone();
            g.status_code = game.status_code.clone();
            g.start_time_tbd = game.start_time_tbd;
            g.away_score = game.away_score;
            g.away_is_winner = game.away_is_winner;
            g.home_score = game.home_score;
            g.home_is_winner = game.home_is_winner;
            g.day_night = clone_opt_text(&game.day_night);
            g.is_tie = game.is_tie;
            found = true;
            assert(after[i as int].game_pk == game.game_pk);
        }
        i += 1;
    }
    assert(old(games)@.take(n as int) =~= old(games)@);
    if found {
        assert(games@ =~= goal);
    } else {
        assert(games@ =~= old(games)@);
        games.push(game.clone());
    }
}

/// Recording a game keeps the table in order, keeps every known key known,
/// and keeps every home game a home game.
pub proof fn lemma_upsert_game_ok(games: Seq<Game>, game: Game)
    requires
        games_ok(games),
    ensures
        games_ok(upsert_game_rows(games, game)),
        has_game(upsert_game_rows(games, game), game.game_pk),
        forall|pk: i64| has_game(games, pk) ==> has_game(upsert_game_rows(games, game), pk),
        forall|pk: i64|
            has_home_game(games, pk) ==> has_home_game(upsert_game_rows(games, game), pk),
{
    let after = upsert_game_rows(games, game);
    if has_game(games, game.game_pk) {
        assert forall|i: int, j: int| 0 <= i < j < after.len() implies (#[trigger] after[i]).game_pk
            != (#[trigger] after[j]).game_pk by {
            assert(after[i].game_pk == games[i].game_pk && after[j].game_pk == games[j].game_pk);
        }
        let w = choose|i: int| 0 <= i < games.len() && (#[trigger] games[i]).game_pk == game.game_pk;
        assert(after[w].game_pk == game.game_pk);
    } else {
        assert(after[games.len() as int].game_pk == game.game_pk);
    }
    assert forall|pk: i64| has_game(games, pk) implies has_game(after, pk) by {
        let i = choose|i: int| 0 <= i < games.len() && (#[trigger] games[i]).game_pk == pk;
        assert(after[i].game_pk == pk);
    }
    assert forall|pk: i64| has_home_game(games, pk) implies has_home_game(after, pk) by {
        let i = choose|i: int|
            0 <= i < games.len() && (#[trigger] games[i]).game_pk == pk && games[i].is_home();
        assert(after[i].game_pk == pk && after[i].is_home());
    }
}

/// Whether a home game of the managed team carries the key.
pub fn home_game_exists(games: &Vec<Game>, game_pk: i64) -> (b: bool)
    ensures
        b == has_home_game(games@, game_pk),
{
    let n = games.len();
    let mut i: usize = 0;
    while i < n
        invariant
            0 <= i <= n,
            n == games@.len(),
            forall|j: int|
                0 <= j < i ==> !((#[trigger] games@[j]).game_pk == game_pk && games@[j].is_home()),
        decreases n - i,
    {
        if games[i].game_pk == game_pk && games[i].plays_at_home() {
            return true;
        }
        i += 1;
    }
    false
}

/// Whether the rows are in order.
pub fn check_games(games: &Vec<Game>) -> (b: bool)
    ensures
        b == games_ok(games@),
{
    let n = games.len();
    let mut keys: Vec<(i64, i64)> = Vec::new();
    let mut i: usize = 0;
    while i < n
        invariant
            0 <= i <= n,
            n == games@.len(),
            keys@.len() == i,
            forall|j: int| 0 <= j < i ==> #[trigger] keys@[j] == (games@[j].game_pk, 0i64),
        decreases n - i,
    {
        keys.push((games[i].game_pk, 0));
        i += 1;
    }
    let unique = all_distinct(&keys);
    proof {
        if unique {
            assert forall|a: int, b: int| 0 <= a < b < games@.len() implies (
            #[trigger] games@[a]).game_pk != (#[trigger] games@[b]).game_pk by {
                assert(keys@[a] != keys@[b]);
            }
        } else {
            let (a, b) = choose|a: int, b: int|
                0 <= a < b < keys@.len() && #[trigger] keys@[a] == #[trigger] keys@[b];
            assert(games@[a].game_pk == games@[b].game_pk);
        }
    }
    unique
}

} // verus!
