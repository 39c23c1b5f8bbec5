//! The user directory: display names by platform identity.

use crate::models::{User, UserV};
use vstd::prelude::*;

verus! {

/// The position of the first user with identity `id`, if any.
pub open spec fn user_index(users: Seq<UserV>, id: Seq<char>) -> Option<int>
    decreases users.len(),
{
    if users.len() == 0 {
        None
    } else if users[0].id == id {
        Some(0)
    } else {
        match user_index(users.drop_first(), id) {
            Some(i) => Some(i + 1),
            None => None,
        }
    }
}

/// Last write wins: an unseen identity is appended, a seen one keeps its
/// place and takes the new display name.
pub open spec fn upsert_users(users: Seq<UserV>, u: UserV) -> Seq<UserV> {
    match user_index(users, u.id) {
        Some(i) => users.update(i, u),
        None => users.push(u),
    }
}

pub proof fn lemma_user_index_skip(users: Seq<UserV>, id: Seq<char>, i: int)
    requires
        0 <= i <= users.len(),
        forall|j: int| 0 <= j < i ==> users[j].id != id,
    ensures
        user_index(users, id) == (match user_index(users.skip(i), id) {
            Some(q) => Some(q + i),
            None => None::<int>,
        }),
    decreases i,
{
    if i > 0 {
        assert(users.len() > 0);
        assert(users[0].id != id);
        assert(users.drop_first().skip(i - 1) =~= users.skip(i));
        lemma_user_index_skip(users.drop_first(), id, i - 1);
    } else {
        assert(users.skip(0) =~= users);
    }
}

/// The directory never holds two records for one identity, and an upsert
/// keeps it that way.
pub open spec fn unique_user_ids(users: Seq<UserV>) -> bool {
    forall|i: int, j: int| 0 <= i < j < users.len() ==> users[i].id != users[j].id
}

pub proof fn lemma_upsert_keeps_unique_ids(users: Seq<UserV>, u: UserV)
    requires
        unique_user_ids(users),
    ensures
        unique_user_ids(upsert_users(users, u)),
{
    match user_index(users, u.id) {
        Some(i) => {
            lemma_user_index_found(users, u.id);
            let r = users.update(i, u);
            assert forall|p: int, q: int| 0 <= p < q < r.len() implies r[p].id != r[q].id by {
                assert(users[p].id != users[q].id);
            };
        },
        None => {
            lemma_user_index_missing(users, u.id);
            let r = users.push(u);
            assert forall|p: int, q: int| 0 <= p < q < r.len() implies r[p].id != r[q].id by {
                if q < users.len() {
                    assert(users[p].id != users[q].id);
                } else {
                    assert(r[q] == u);
                    assert(r[p] == users[p]);
                }
            };
        },
    }
}

/// A found index holds the identity it was found for.
pub proof fn lemma_user_index_found(users: Seq<UserV>, id: Seq<char>)
    requires
        user_index(users, id) is Some,
    ensures
        ({
            let i = user_index(users, id)->Some_0;
            0 <= i < users.len() && users[i].id == id
        }),
    decreases users.len(),
{
    if users.len() > 0 && users[0].id != id {
        lemma_user_index_found(users.drop_first(), id);
    }
}

/// A missing index means no record holds the identity.
pub proof fn lemma_user_index_missing(users: Seq<UserV>, id: Seq<char>)
    requires
        user_index(users, id) is None,
    ensures
        forall|i: int| 0 <= i < users.len() ==> (#[trigger] users[i]).id != id,
    decreases users.len(),
{
    if users.len() > 0 {
        lemma_user_index_missing(users.drop_first(), id);
        assert forall|i: int| 0 <= i < users.len() implies (#[trigger] users[i]).id != id by {
            if i > 0 {
                assert(users.drop_first()[i - 1] == users[i]);
            }
        };
    }
}

/// The user directory interface. A failing implementation reports `Err`
/// and must leave the directory as it was.
pub trait UserService {
    spec fn users(&self) -> Seq<UserV>;

    fn update_user(&mut self, user: &User) -> (r: Result<(), ()>)
        ensures
            r matches Ok(()) ==> final(self).users() == upsert_users(old(self).users(), user@),
            r is Err ==> final(self).users() == old(self).users(),
    ;
}

} // verus!
