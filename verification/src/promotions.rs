//! The promotion table, keyed by offer and game.

use vstd::prelude::*;
use crate::models::Promotion;
use crate::seqs::all_distinct;

verus! {

/// Whether a promotion carries the key.
pub open spec fn has_offer(rows: Seq<Promotion>, offer_id: i64, game_pk: i64) -> bool {
    exists|i: int|
        0 <= i < rows.len() && (#[trigger] rows[i]).offer_id == offer_id && rows[i].game_pk
            == game_pk
}

/// The promotions after `promo` is recorded: it replaces the row with its key,
/// or is added at the end.
pub open spec fn upsert_promotion_rows(rows: Seq<Promotion>, promo: Promotion) -> Seq<Promotion> {
    if has_offer(rows, promo.offer_id, promo.game_pk) {
        rows.map_values(
            |p: Promotion|
                if p.offer_id == promo.offer_id && p.game_pk == promo.game_pk {
                    promo
                } else {
                    p
                },
        )
    } else {
        rows.push(promo)
    }
}

/// What the table requires of its rows: no key occurs twice.
pub open spec fn promotions_ok(rows: Seq<Promotion>) -> bool {
    forall|i: int, j: int|
        0 <= i < j < rows.len() ==> !((#[trigger] rows[i]).offer_id == (#[trigger] rows[j]).offer_id
            && rows[i].game_pk == rows[j].game_pk)
}

/// Records `promo`.
pub fn upsert_promotion_in(rows: &mut Vec<Promotion>, promo: &Promotion)
    ensures
        final(rows)@ == upsert_promotion_rows(old(rows)@, *promo),
{
    let n = rows.len();
    let mut found = false;
    let mut i: usize = 0;
    let ghost goal = old(rows)@.map_values(
        |p: Promotion|
            if p.offer_id == promo.offer_id && p.game_pk == promo.game_pk {
                *promo
            } else {
                p
            },
    );
    while i < n
        invariant
            0 <= i <= n,
            n == old(rows)@.len(),
            rows@.len() == n,
            forall|j: int|
                0 <= j < i ==> rows@[j] == (if old(rows)@[j].offer_id == promo.offer_id && old(
                    rows,
                )@[j].game_pk == promo.game_pk {
                    *promo
                } else {
                    old(rows)@[j]
                }),
            forall|j: int| i <= j < n ==> rows@[j] == old(rows)@[j],
            found == has_offer(old(rows)@.take(i as int), promo.offer_id, promo.game_pk),
        decreases n - i,
    {
        let ghost before = old(rows)@.take(i as int);
        let ghost after = old(rows)@.take(i as int + 1);
        assert(forall|j: int| 0 <= j < i ==> before[j] == after[j]);
        if rows[i].offer_id == promo.offer_id && rows[i].game_pk == promo.game_pk {
            rows[i] = promo.clone();
            found = true;
            assert(after[i as int].offer_id == promo.offer_id);
        }
        i += 1;
    }
    assert(old(rows)@.take(n as int) =~= old(rows)@);
    if found {
        assert(rows@ =~= goal);
    } else {
        assert(rows@ =~= old(rows)@);
        rows.push(promo.clone());
    }
}

/// Recording a promotion keeps the table in order.
pub proof fn lemma_upsert_promotion_ok(rows: Seq<Promotion>, promo: Promotion)
    requires
        promotions_ok(rows),
    ensures
        promotions_ok(upsert_promotion_rows(rows, promo)),
        has_offer(upsert_promotion_rows(rows, promo), promo.offer_id, promo.game_pk),
{
    let after = upsert_promotion_rows(rows, promo);
    if has_offer(rows, promo.offer_id, promo.game_pk) {
        assert forall|i: int, j: int| 0 <= i < j < after.len() implies !((
        #[trigger] after[i]).offer_id == (#[trigger] after[j]).offer_id && after[i].game_pk
            == after[j].game_pk) by {
            assert(after[i].offer_id == rows[i].offer_id && after[i].game_pk == rows[i].game_pk);
            assert(after[j].offer_id == rows[j].offer_id && after[j].game_pk == rows[j].game_pk);
        }
        let w = choose|i: int|
            0 <= i < rows.len() && (#[trigger] rows[i]).offer_id == promo.offer_id
                && rows[i].game_pk == promo.game_pk;
        assert(after[w].offer_id == promo.offer_id && after[w].game_pk == promo.game_pk);
    } else {
        assert(after[rows.len() as int] == promo);
    }
}

/// Whether the rows are in order.
pub fn check_promotions(rows: &Vec<Promotion>) -> (b: bool)
    ensures
        b == promotions_ok(rows@),
{
    let n = rows.len();
    let mut keys: Vec<(i64, i64)> = Vec::new();
    let mut i: usize = 0;
    while i < n
        invariant
            0 <= i <= n,
            n == rows@.len(),
            keys@.len() == i,
            forall|j: int| 0 <= j < i ==> #[trigger] keys@[j] == (rows@[j].offer_id, rows@[j].game_pk),
        decreases n - i,
    {
        keys.push((rows[i].offer_id, rows[i].game_pk));
        i += 1;
    }
    let unique = all_distinct(&keys);
    proof {
        if unique {
            assert forall|a: int, b: int| 0 <= a < b < rows@.len() implies !((
            #[trigger] rows@[a]).offer_id == (#[trigger] rows@[b]).offer_id && rows@[a].game_pk
                == rows@[b].game_pk) by {
                assert(keys@[a] != keys@[b]);
            }
        } else {
            let (a, b) = choose|a: int, b: int|
                0 <= a < b < keys@.len() && #[trigger] keys@[a] == #[trigger] keys@[b];
            assert(rows@[a].offer_id == rows@[b].offer_id && rows@[a].game_pk == rows@[b].game_pk);
        }
    }
    unique
}

} // verus!
