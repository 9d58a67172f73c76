//! Users and who is friends with whom.

use crate::domain::db_id::{decode_with_suffix, relay_id, spec_relay_bytes, CanDecodeId, DbId, HasDbId};
use crate::domain::errors::MappingError;
use crate::encoding::{url_safe_decoding, url_safe_encoding};
use vstd::prelude::*;
use vstd::string::StringSliceAdditionalSpecFns;

verus! {

/// Marks the relay ids of users.
pub const SUFFIX: &'static str = "AppUser";

/// A user.
#[derive(Debug, Clone)]
pub struct AppUser {
    pub user_id: DbId,
    pub first_name: String,
    pub last_name: String,
}

/// The fields a new user is created from.
#[derive(Debug)]
pub struct AppUserInput {
    pub first_name: String,
    pub last_name: String,
}

/// The request to befriend the user with the given relay id.
#[derive(Debug)]
pub struct AddFriendInput {
    pub friend: String,
}

impl HasDbId for AppUser {
    open spec fn spec_db_id(&self) -> DbId {
        self.user_id
    }

    fn db_id(&self) -> (id: DbId) {
        self.user_id
    }
}

impl CanDecodeId for AppUser {
    open spec fn spec_suffix() -> Seq<char> {
        SUFFIX@
    }

    fn decode(relay_id: &str) -> (id: Result<DbId, MappingError>) {
        decode_with_suffix(relay_id, SUFFIX)
    }
}

impl AppUser {
    /// The relay id of the user.
    pub fn id(&self) -> (text: String)
        ensures
            text@ == url_safe_encoding(spec_relay_bytes(self.user_id, SUFFIX.spec_bytes())),
            url_safe_decoding(text@) == Some(spec_relay_bytes(self.user_id, SUFFIX.spec_bytes())),
    {
        proof {
            reveal_strlit("AppUser");
            broadcast use vstd::string::is_ascii_spec_bytes;

            assert(vstd::string::is_ascii(SUFFIX));
        }
        relay_id(self.user_id, SUFFIX)
    }

    /// The given name.
    pub fn first_name(&self) -> (name: &str)
        ensures
            name@ == self.first_name@,
    {
        self.first_name.as_str()
    }

    /// The family name.
    pub fn last_name(&self) -> (name: &str)
        ensures
            name@ == self.last_name@,
    {
        self.last_name.as_str()
    }
}

/// The friend that a relation gives to `id`: the other end, if `id` is one
/// of its ends.
pub open spec fn friend_in(relation: (DbId, DbId), id: DbId) -> Option<DbId> {
    if relation.0 == id {
        Some(relation.1)
    } else if relation.1 == id {
        Some(relation.0)
    } else {
        None
    }
}

/// The friends of `id`, one per relation that `id` is part of, in the order
/// of the relations.
pub open spec fn spec_friends_of(relations: Seq<(DbId, DbId)>, id: DbId) -> Seq<DbId>
    decreases relations.len(),
{
    if relations.len() == 0 {
        Seq::<DbId>::empty()
    } else {
        let before = spec_friends_of(relations.drop_last(), id);
        match friend_in(relations.last(), id) {
            Some(friend) => before.push(friend),
            None => before,
        }
    }
}

/// The friends of `id` among the given relations.
pub fn friends_of(relations: &Vec<(DbId, DbId)>, id: DbId) -> (friends: Vec<DbId>)
    ensures
        friends@ == spec_friends_of(relations@, id),
{
    let mut friends: Vec<DbId> = Vec::new();
    let mut i: usize = 0;
    while i < relations.len()
        invariant
            i <= relations.len(),
            friends@ == spec_friends_of(relations@.take(i as int), id),
        decreases relations.len() - i,
    {
        proof {
            assert(relations@.take(i + 1).drop_last() =~= relations@.take(i as int));
            assert(relations@.take(i + 1).last() == relations@[i as int]);
        }
        let relation: (DbId, DbId) = relations[i];
        if relation.0 == id {
            friends.push(relation.1);
        } else if relation.1 == id {
            friends.push(relation.0);
        }
        i += 1;
    }
    proof {
        assert(relations@.take(i as int) =~= relations@);
    }
    friends
}

/// For each of `ids`, in their order, its friends among the relations.
pub fn friend_lists(ids: &Vec<DbId>, relations: &Vec<(DbId, DbId)>) -> (lists: Vec<
    (DbId, Vec<DbId>),
>)
    ensures
        lists@.len() == ids@.len(),
        forall|k: int|
            0 <= k < ids@.len() ==> (#[trigger] lists@[k]).0 == ids@[k] && lists@[k].1@
                == spec_friends_of(relations@, ids@[k]),
{
    let mut lists: Vec<(DbId, Vec<DbId>)> = Vec::new();
    let mut i: usize = 0;
    while i < ids.len()
        invariant
            i <= ids.len(),
            lists@.len() == i,
            forall|k: int|
                0 <= k < i ==> (#[trigger] lists@[k]).0 == ids@[k] && lists@[k].1@
                    == spec_friends_of(relations@, ids@[k]),
        decreases ids.len() - i,
    {
        let id: DbId = ids[i];
        let friends: Vec<DbId> = friends_of(relations, id);
        lists.push((id, friends));
        i += 1;
    }
    lists
}

/// The two ends of a friendship in the order in which it is stored: the
/// smaller identifier first.
pub fn ordered_pair(user: DbId, friend: DbId) -> (pair: (DbId, DbId))
    ensures
        pair.0.0 <= pair.1.0,
        pair == (user, friend) || pair == (friend, user),
        user.0 <= friend.0 ==> pair == (user, friend),
{
    if user.0 <= friend.0 {
        (user, friend)
    } else {
        (friend, user)
    }
}

} // verus!
