//! The users that have signed in.
//!
//! Who a caller is, is settled outside the engine; it hands in the subject,
//! the contact data and the roles that the identity provider vouches for.

use vstd::prelude::*;
use crate::error::{EngineError, StorageError};
use crate::models::{Role, User};
use crate::store::{Store, StoreView};
use crate::text::same_text;
use crate::users::{
    find_subject, has_subject, lemma_upsert_user_ok, upsert_user_in, upsert_user_rows,
};

verus! {

/// Why a sign-in cannot be recorded, if it cannot.
pub open spec fn sign_in_refusal(v: StoreView, subject: Seq<char>) -> Option<EngineError> {
    if !has_subject(v.users, subject) && v.next_user_id >= i64::MAX {
        Some(EngineError::Storage(StorageError::IdsExhausted))
    } else {
        None
    }
}

/// The store after a sign-in.
pub open spec fn after_sign_in(
    v: StoreView,
    subject: String,
    email: String,
    name: String,
    role: Role,
) -> StoreView {
    StoreView {
        users: upsert_user_rows(v.users, v.next_user_id, subject, email, name, role),
        next_user_id: if has_subject(v.users, subject@) {
            v.next_user_id
        } else {
            v.next_user_id + 1
        },
        ..v
    }
}

/// Records a sign-in: a known subject takes the new email, name and role, an
/// unknown one becomes a new user. Returns the user's row as it stands
/// afterwards.
pub fn upsert_user(store: &mut Store, auth0_sub: String, email: String, name: String, role: Role) -> (r:
    Result<User, EngineError>)
    requires
        old(store).wf(),
    ensures
        final(store).wf(),
        match r {
            Ok(user) => {
                &&& sign_in_refusal(old(store)@, auth0_sub@) is None
                &&& final(store)@ == after_sign_in(old(store)@, auth0_sub, email, name, role)
                &&& final(store)@.users.contains(user)
                &&& user.auth0_sub@ == auth0_sub@
                &&& user.email == email
                &&& user.name == name
                &&& user.role == role
            },
            Err(e) => {
                &&& sign_in_refusal(old(store)@, auth0_sub@) == Some(e)
                &&& final(store)@ == old(store)@
            },
        },
{
    let known = find_subject(&store.users, &auth0_sub).is_some();
    if !known && store.next_user_id >= i64::MAX {
        return Err(EngineError::Storage(StorageError::IdsExhausted));
    }
    proof {
        lemma_upsert_user_ok(store@.users, store@.next_user_id, auth0_sub, email, name, role);
    }
    let at = upsert_user_in(&mut store.users, store.next_user_id, auth0_sub, email, name, role);
    if !known {
        store.next_user_id = store.next_user_id + 1;
    }
    let user = store.users[at].clone();
    assert(store.users@[at as int] == user);
    Ok(user)
}

/// The user with the subject, if there is one.
pub fn get_user_by_sub(store: &Store, auth0_sub: &str) -> (r: Option<User>)
    ensures
        r is Some == has_subject(store@.users, auth0_sub@),
        r is Some ==> store@.users.contains(r->0) && r->0.auth0_sub@ == auth0_sub@,
{
    let subject = String::from_str(auth0_sub);
    match find_subject(&store.users, &subject) {
        Some(at) => {
            let user = store.users[at].clone();
            assert(store.users@[at as int] == user);
            Some(user)
        },
        None => None,
    }
}

/// Whether one of the roles is that of an administrator.
pub open spec fn names_admin(roles: Seq<String>) -> bool {
    exists|i: int| 0 <= i < roles.len() && (#[trigger] roles[i])@ == "admin"@
}

/// Whether one of the roles is that of an administrator.
pub fn require_admin(roles: &Vec<String>) -> (b: bool)
    ensures
        b == names_admin(roles@),
{
    let n = roles.len();
    let mut i: usize = 0;
    while i < n
        invariant
            0 <= i <= n,
            n == roles@.len(),
            forall|j: int| 0 <= j < i ==> (#[trigger] roles@[j])@ != "admin"@,
        decreases n - i,
    {
        if same_text(roles[i].as_str(), "admin") {
            return true;
        }
        i += 1;
    }
    false
}

/// The role that a set of vouched roles gives.
pub open spec fn role_of(roles: Seq<String>) -> Role {
    if names_admin(roles) {
        Role::Admin
    } else {
        Role::Member
    }
}

/// The characters of `text`, or those of `fallback` where there is none.
pub open spec fn chars_or(text: Option<String>, fallback: Seq<char>) -> Seq<char> {
    match text {
        Some(t) => t@,
        None => fallback,
    }
}

/// Whether a user with the subject has this email, name and role.
pub open spec fn is_recorded(
    users: Seq<User>,
    subject: Seq<char>,
    email: Seq<char>,
    name: Seq<char>,
    role: Role,
) -> bool {
    exists|i: int|
        0 <= i < users.len() && (#[trigger] users[i]).auth0_sub@ == subject && users[i].email@
            == email && users[i].name@ == name && users[i].role == role
}

/// Whether the store already holds an authenticated caller as the caller
/// signs in now, so that recording the sign-in would tell it nothing new.
pub fn caller_is_current(
    store: &Store,
    auth0_sub: &str,
    email: &Option<String>,
    name: &Option<String>,
    roles: &Vec<String>,
) -> (b: bool)
    requires
        store.wf(),
    ensures
        b == is_recorded(
            store@.users,
            auth0_sub@,
            chars_or(*email, "unknown@example.com"@),
            chars_or(*name, "Unknown"@),
            role_of(roles@),
        ),
{
    let subject = String::from_str(auth0_sub);
    let at = match find_subject(&store.users, &subject) {
        Some(at) => at,
        None => {
            return false;
        },
    };
    let email = match email {
        Some(e) => e.as_str(),
        None => "unknown@example.com",
    };
    let name = match name {
        Some(n) => n.as_str(),
        None => "Unknown",
    };
    let role = if require_admin(roles) {
        Role::Admin
    } else {
        Role::Member
    };
    let user = &store.users[at];
    let same = same_text(user.email.as_str(), email) && same_text(user.name.as_str(), name)
        && user.role == role;
    proof {
        let users = store@.users;
        assert forall|i: int|
            0 <= i < users.len() && (#[trigger] users[i]).auth0_sub@ == auth0_sub@ implies i
            == at by {
            if i < at as int {
                assert(users[i].auth0_sub@ != users[at as int].auth0_sub@);
            } else if i > at as int {
                assert(users[at as int].auth0_sub@ != users[i].auth0_sub@);
            }
        }
    }
    same
}

/// Records the sign-in of an authenticated caller and returns the caller's
/// row.
///
/// A caller without a name is called "Unknown", one without an email address
/// gets "unknown@example.com"; the role is that of an administrator exactly if
/// the roles name one.
pub fn resolve_user(
    store: &mut Store,
    auth0_sub: String,
    email: Option<String>,
    name: Option<String>,
    roles: &Vec<String>,
) -> (r: Result<User, EngineError>)
    requires
        old(store).wf(),
    ensures
        final(store).wf(),
        match r {
            Ok(user) => {
                &&& sign_in_refusal(old(store)@, auth0_sub@) is None
                &&& final(store)@ == after_sign_in(
                    old(store)@,
                    auth0_sub,
                    user.email,
                    user.name,
                    role_of(roles@),
                )
                &&& final(store)@.users.contains(user)
                &&& user.auth0_sub@ == auth0_sub@
                &&& user.email@ == chars_or(email, "unknown@example.com"@)
                &&& user.name@ == chars_or(name, "Unknown"@)
                &&& user.role == role_of(roles@)
            },
            Err(e) => {
                &&& sign_in_refusal(old(store)@, auth0_sub@) == Some(e)
                &&& final(store)@ == old(store)@
            },
        },
{
    let name = match name {
        Some(n) => n,
        None => String::from_str("Unknown"),
    };
    let email = match email {
        Some(e) => e,
        None => String::from_str("unknown@example.com"),
    };
    let role = if require_admin(roles) {
        Role::Admin
    } else {
        Role::Member
    };
    upsert_user(store, auth0_sub, email, name, role)
}

} // verus!
