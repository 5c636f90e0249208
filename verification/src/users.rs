//! The user table, keyed by the subject that the identity provider issues.

use std::collections::HashMap;
use vstd::prelude::*;
use vstd::std_specs::hash::*;
use crate::models::{Role, User};
use crate::seqs::all_distinct;

verus! {

/// Whether a user carries the subject.
pub open spec fn has_subject(users: Seq<User>, subject: Seq<char>) -> bool {
    exists|i: int| 0 <= i < users.len() && (#[trigger] users[i]).auth0_sub@ == subject
}

/// Whether a user carries the id.
pub open spec fn has_user(users: Seq<User>, id: i64) -> bool {
    exists|i: int| 0 <= i < users.len() && (#[trigger] users[i]).id == id
}

/// The users after a sign-in: the user with the subject takes the new email,
/// name and role; an unknown subject becomes a new user with id `next`.
pub open spec fn upsert_user_rows(
    users: Seq<User>,
    next: int,
    subject: String,
    email: String,
    name: String,
    role: Role,
) -> Seq<User> {
    if has_subject(users, subject@) {
        users.map_values(
            |u: User|
                if u.auth0_sub@ == subject@ {
                    User { email, name, role, ..u }
                } else {
                    u
                },
        )
    } else {
        users.push(User { id: next as i64, auth0_sub: subject, email, name, role })
    }
}

/// What the table requires of its rows: ids are positive, below `next` and
/// unique, and no subject occurs twice.
pub open spec fn users_ok(users: Seq<User>, next: int) -> bool {
    &&& forall|i: int| 0 <= i < users.len() ==> 1 <= (#[trigger] users[i]).id < next
    &&& forall|i: int, j: int|
        0 <= i < j < users.len() ==> (#[trigger] users[i]).id != (#[trigger] users[j]).id
    &&& forall|i: int, j: int|
        0 <= i < j < users.len() ==> (#[trigger] users[i]).auth0_sub@ != (
        #[trigger] users[j]).auth0_sub@
}

/// The place of the user with the id.
pub open spec fn user_place(users: Seq<User>, id: i64) -> int {
    choose|i: int| 0 <= i < users.len() && (#[trigger] users[i]).id == id
}

/// The name of the user with the id, if there is such a user.
pub open spec fn name_of(users: Seq<User>, id: i64) -> Option<String> {
    if has_user(users, id) {
        Some(users[user_place(users, id)].name)
    } else {
        None
    }
}

/// In a table in order, a user is found by the id.
pub proof fn lemma_user_place(users: Seq<User>, next: int, at: int)
    requires
        users_ok(users, next),
        0 <= at < users.len(),
    ensures
        user_place(users, users[at].id) == at,
{
    let k = user_place(users, users[at].id);
    assert(users[at].id == users[at].id);
    if k < at {
        assert(users[k].id != users[at].id);
    } else if k > at {
        assert(users[at].id != users[k].id);
    }
}

/// Whether an index leads from every id of a user to the place of that user,
/// and from no other id anywhere.
pub open spec fn indexes(index: Map<i64, usize>, users: Seq<User>) -> bool {
    &&& forall|id: i64| #[trigger] index.contains_key(id) <==> has_user(users, id)
    &&& forall|id: i64|
        #[trigger] index.contains_key(id) ==> index[id] < users.len() && users[index[id] as int].id
            == id
}

/// An index from the ids of the users to their places.
pub fn index_users(users: &Vec<User>) -> (index: HashMap<i64, usize>)
    ensures
        indexes(index@, users@),
{
    broadcast use group_hash_axioms;

    let n = users.len();
    let mut index: HashMap<i64, usize> = HashMap::new();
    let mut i: usize = 0;
    while i < n
        invariant
            0 <= i <= n,
            n == users@.len(),
            forall|id: i64|
                #[trigger] index@.contains_key(id) <==> has_user(users@.take(i as int), id),
            forall|id: i64|
                #[trigger] index@.contains_key(id) ==> index@[id] < i && users@[index@[id] as int].id
                    == id,
        decreases n - i,
    {
        let ghost before = users@.take(i as int);
        let ghost after = users@.take(i as int + 1);
        let ghost old_index = index@;
        index.insert(users[i].id, i);
        proof {
            assert forall|id: i64| #[trigger] index@.contains_key(id) <==> has_user(after, id) by {
                if has_user(after, id) {
                    let w = choose|w: int| 0 <= w < after.len() && (#[trigger] after[w]).id == id;
                    if w < i {
                        assert(before[w].id == id);
                        assert(old_index.contains_key(id));
                    }
                }
                if index@.contains_key(id) {
                    if id == users@[i as int].id {
                        assert(after[i as int].id == id);
                    } else {
                        assert(old_index.contains_key(id));
                        let w = choose|w: int| 0 <= w < before.len() && (#[trigger] before[w]).id == id;
                        assert(after[w].id == id);
                    }
                }
            }
        }
        i += 1;
    }
    assert(users@.take(n as int) =~= users@);
    index
}

/// The name of the user with the id, if there is such a user.
pub fn user_name(users: &Vec<User>, index: &HashMap<i64, usize>, id: i64) -> (name: Option<String>)
    requires
        exists|next: int| users_ok(users@, next),
        indexes(index@, users@),
    ensures
        name == name_of(users@, id),
{
    broadcast use group_hash_axioms;

    match index.get(&id) {
        Some(at) => {
            proof {
                let next = choose|next: int| users_ok(users@, next);
                assert(index@.contains_key(id));
                lemma_user_place(users@, next, *at as int);
            }
            Some(users[*at].name.clone())
        },
        None => {
            assert(!index@.contains_key(id));
            None
        },
    }
}

/// The place of the user with the subject, if there is one.
pub fn find_subject(users: &Vec<User>, subject: &String) -> (r: Option<usize>)
    ensures
        r is Some == has_subject(users@, subject@),
        r is Some ==> r->0 < users@.len() && users@[r->0 as int].auth0_sub@ == subject@,
{
    let n = users.len();
    let mut i: usize = 0;
    while i < n
        invariant
            0 <= i <= n,
            n == users@.len(),
            forall|j: int| 0 <= j < i ==> users@[j].auth0_sub@ != subject@,
        decreases n - i,
    {
        if users[i].auth0_sub == *subject {
            return Some(i);
        }
        i += 1;
    }
    None
}

/// Records a sign-in, and returns the place of the user's row.
pub fn upsert_user_in(
    users: &mut Vec<User>,
    next: i64,
    subject: String,
    email: String,
    name: String,
    role: Role,
) -> (at: usize)
    ensures
        final(users)@ == upsert_user_rows(old(users)@, next as int, subject, email, name, role),
        at < final(users)@.len(),
        final(users)@[at as int].auth0_sub@ == subject@,
        has_subject(old(users)@, subject@) ==> at < old(users)@.len() && old(users)@[at as int].auth0_sub@
            == subject@,
        !has_subject(old(users)@, subject@) ==> at == old(users)@.len(),
{
    let n = users.len();
    let mut at: Option<usize> = None;
    let mut i: usize = 0;
    let ghost goal = old(users)@.map_values(
        |u: User|
            if u.auth0_sub@ == subject@ {
                User { email, name, role, ..u }
            } else {
                u
            },
    );
    while i < n
        invariant
            0 <= i <= n,
            n == old(users)@.len(),
            users@.len() == n,
            forall|j: int|
                0 <= j < i ==> users@[j] == (if old(users)@[j].auth0_sub@ == subject@ {
                    User { email, name, role, ..old(users)@[j] }
                } else {
                    old(users)@[j]
                }),
            forall|j: int| i <= j < n ==> users@[j] == old(users)@[j],
            at is Some == has_subject(old(users)@.take(i as int), subject@),
            at is Some ==> at->0 < i && old(users)@[at->0 as int].auth0_sub@ == subject@,
        decreases n - i,
    {
        let ghost before = old(users)@.take(i as int);
        let ghost after = old(users)@.take(i as int + 1);
        assert(forall|j: int| 0 <= j < i ==> before[j] == after[j]);
        if users[i].auth0_sub == subject {
            let u = &mut users[i];
            u.email = email.clone();
            u.name = name.clone();
            u.role = role;
            at = Some(i);
            assert(after[i as int].auth0_sub@ == subject@);
        }
        i += 1;
    }
    assert(old(users)@.take(n as int) =~= old(users)@);
    match at {
        Some(k) => {
            assert(users@ =~= goal);
            k
        },
        None => {
            assert(users@ =~= old(users)@);
            users.push(User { id: next, auth0_sub: subject, email, name, role });
            n
        },
    }
}

/// Recording a sign-in keeps the table in order.
pub proof fn lemma_upsert_user_ok(
    users: Seq<User>,
    next: int,
    subject: String,
    email: String,
    name: String,
    role: Role,
)
    requires
        users_ok(users, next),
        1 <= next <= i64::MAX,
    ensures
        has_subject(users, subject@) ==> users_ok(
            upsert_user_rows(users, next, subject, email, name, role),
            next,
        ),
        !has_subject(users, subject@) ==> users_ok(
            upsert_user_rows(users, next, subject, email, name, role),
            next + 1,
        ),
{
    let after = upsert_user_rows(users, next, subject, email, name, role);
    if has_subject(users, subject@) {
        assert forall|i: int| 0 <= i < after.len() implies 1 <= (#[trigger] after[i]).id < next by {
            assert(after[i].id == users[i].id);
        }
        assert forall|i: int, j: int| 0 <= i < j < after.len() implies (#[trigger] after[i]).id != (
        #[trigger] after[j]).id && after[i].auth0_sub@ != after[j].auth0_sub@ by {
            assert(after[i].id == users[i].id && after[j].id == users[j].id);
            assert(after[i].auth0_sub == users[i].auth0_sub && after[j].auth0_sub
                == users[j].auth0_sub);
        }
    } else {
        let n = users.len() as int;
        assert forall|i: int| 0 <= i < after.len() implies 1 <= (#[trigger] after[i]).id < next
            + 1 by {
            if i < n {
                assert(after[i] == users[i]);
            }
        }
        assert forall|i: int, j: int| 0 <= i < j < after.len() implies (#[trigger] after[i]).id != (
        #[trigger] after[j]).id && after[i].auth0_sub@ != after[j].auth0_sub@ by {
            assert(after[i] == users[i]);
            if j < n {
                assert(after[j] == users[j]);
            }
        }
    }
}

/// Whether the rows are in order.
pub fn check_users(users: &Vec<User>, next: i64) -> (b: bool)
    ensures
        b == users_ok(users@, next as int),
{
    let n = users.len();
    let mut ids: Vec<(i64, i64)> = Vec::new();
    let mut j: usize = 0;
    while j < n
        invariant
            0 <= j <= n,
            n == users@.len(),
            ids@.len() == j,
            forall|k: int| 0 <= k < j ==> #[trigger] ids@[k] == (users@[k].id, 0i64),
            forall|k: int| 0 <= k < j ==> 1 <= (#[trigger] users@[k]).id < next,
            forall|a: int, b: int|
                0 <= a < b < j ==> (#[trigger] users@[a]).auth0_sub@ != (
                #[trigger] users@[b]).auth0_sub@,
        decreases n - j,
    {
        if users[j].id < 1 || users[j].id >= next {
            assert(!(1 <= users@[j as int].id < next));
            return false;
        }
        let mut i: usize = 0;
        while i < j
            invariant
                0 <= i <= j,
                j < n,
                n == users@.len(),
                forall|a: int| 0 <= a < i ==> (#[trigger] users@[a]).auth0_sub@ != users@[j as int].auth0_sub@,
            decreases j - i,
        {
            if users[i].auth0_sub == users[j].auth0_sub {
                assert(users@[i as int].auth0_sub@ == users@[j as int].auth0_sub@);
                return false;
            }
            i += 1;
        }
        ids.push((users[j].id, 0));
        j += 1;
    }
    let unique = all_distinct(&ids);
    proof {
        if unique {
            assert forall|a: int, b: int| 0 <= a < b < users@.len() implies (#[trigger] users@[a]).id != (
            #[trigger] users@[b]).id by {
                assert(ids@[a] != ids@[b]);
            }
        } else {
            let (a, b) = choose|a: int, b: int|
                0 <= a < b < ids@.len() && #[trigger] ids@[a] == #[trigger] ids@[b];
            assert(users@[a].id == users@[b].id);
        }
    }
    unique
}

} // verus!
