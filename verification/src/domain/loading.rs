//! What the batch loaders compute once the rows are in: grouping by owner
//! and ordering by age.

use crate::domain::comment::Comment;
use crate::domain::db_id::{DbId, HasDbId};
use crate::domain::post::Post;
use crate::domain::relay_meta::position_of;
use vstd::prelude::*;
use vstd::seq_lib::{to_multiset_build, to_multiset_insert};

verus! {

/// Something that belongs to a row of another kind.
pub trait Owned {
    /// The identifier of the owner, as a specification.
    spec fn spec_owner(&self) -> DbId;

    /// The identifier of the owner.
    fn owner(&self) -> (id: DbId)
        ensures
            id == self.spec_owner(),
    ;
}

/// A post belongs to its author.
impl Owned for Post {
    open spec fn spec_owner(&self) -> DbId {
        self.author
    }

    fn owner(&self) -> (id: DbId) {
        self.author
    }
}

/// A comment belongs to the post it was written under.
impl Owned for Comment {
    open spec fn spec_owner(&self) -> DbId {
        self.referenced_post
    }

    fn owner(&self) -> (id: DbId) {
        self.referenced_post
    }
}

/// The identifiers of `items`, in their order.
pub open spec fn spec_ids_of<T: HasDbId>(items: Seq<T>) -> Seq<DbId> {
    Seq::new(items.len(), |i: int| items[i].spec_db_id())
}

/// The identifiers of `items`, in their order.
pub fn ids_of<T: HasDbId>(items: &Vec<T>) -> (ids: Vec<DbId>)
    ensures
        ids@ == spec_ids_of(items@),
{
    let mut ids: Vec<DbId> = Vec::new();
    let mut i: usize = 0;
    while i < items.len()
        invariant
            i <= items.len(),
            ids@ == spec_ids_of(items@.take(i as int)),
        decreases items.len() - i,
    {
        let id: DbId = items[i].db_id();
        ids.push(id);
        proof {
            assert(ids@ =~= spec_ids_of(items@.take(i + 1)));
        }
        i += 1;
    }
    proof {
        assert(items@.take(i as int) =~= items@);
    }
    ids
}

/// The items that belong to `owner`, in their order.
pub open spec fn owned_by<T: Owned>(items: Seq<T>, owner: DbId) -> Seq<T>
    decreases items.len(),
{
    if items.len() == 0 {
        Seq::<T>::empty()
    } else {
        let before = owned_by(items.drop_last(), owner);
        if items.last().spec_owner() == owner {
            before.push(items.last())
        } else {
            before
        }
    }
}

/// Whether position `at` is the first that holds its identifier.
pub open spec fn is_first(owners: Seq<DbId>, at: int) -> bool {
    forall|k: int| 0 <= k < at ==> owners[k] != owners[at]
}

/// What the group at position `at` holds: everything that belongs to the
/// owner at that position, unless the owner was listed before; then the
/// earlier group holds it and this one is empty.
pub open spec fn spec_group<T: Owned>(owners: Seq<DbId>, items: Seq<T>, at: int) -> Seq<T> {
    if is_first(owners, at) {
        owned_by(items, owners[at])
    } else {
        Seq::<T>::empty()
    }
}

/// Sorts `items` into one group per listed owner. Items of an owner that is
/// not listed are dropped.
pub fn group_by_owner<T: Owned>(owners: &Vec<DbId>, items: Vec<T>) -> (groups: Vec<Vec<T>>)
    ensures
        groups@.len() == owners@.len(),
        forall|g: int|
            0 <= g < owners@.len() ==> (#[trigger] groups@[g])@ == spec_group(owners@, items@, g),
{
    let mut groups: Vec<Vec<T>> = Vec::new();
    let mut g: usize = 0;
    while g < owners.len()
        invariant
            g <= owners.len(),
            groups@.len() == g,
            forall|k: int| 0 <= k < g ==> (#[trigger] groups@[k])@ == Seq::<T>::empty(),
        decreases owners.len() - g,
    {
        groups.push(Vec::new());
        g += 1;
    }
    let ghost all: Seq<T> = items@;
    let count: usize = items.len();
    let mut n: usize = 0;
    for item in it: items
        invariant
            n == it.index(),
            it.seq() == all,
            all.len() == count,
            groups@.len() == owners@.len(),
            forall|k: int|
                0 <= k < owners@.len() ==> (#[trigger] groups@[k])@ == spec_group(
                    owners@,
                    all.take(n as int),
                    k,
                ),
    {
        proof {
            assert(all.take(n + 1).drop_last() =~= all.take(n as int));
            assert(all.take(n + 1).last() == item);
        }
        let key: DbId = item.owner();
        let ghost before: Seq<Vec<T>> = groups@;
        match position_of(owners, key) {
            Some(at) => {
                groups[at].push(item);
                proof {
                    assert forall|k: int| 0 <= k < owners@.len() implies (#[trigger] groups@[k])@
                        == spec_group(owners@, all.take(n + 1), k) by {
                        if k == at {
                            assert(is_first(owners@, k));
                        } else {
                            assert(groups@[k] == before[k]);
                            if owners@[k] == key {
                                if at < k {
                                    assert(!is_first(owners@, k));
                                }
                            }
                        }
                    }
                }
            },
            None => {
                proof {
                    assert forall|k: int| 0 <= k < owners@.len() implies (#[trigger] groups@[k])@
                        == spec_group(owners@, all.take(n + 1), k) by {
                        assert(owners@[k] != key);
                    }
                }
            },
        }
        n += 1;
    }
    proof {
        assert(all.take(n as int) =~= all);
    }
    groups
}

/// Whether the posts stand oldest first.
pub open spec fn oldest_first(posts: Seq<Post>) -> bool {
    forall|i: int, j: int|
        0 <= i <= j < posts.len() ==> (#[trigger] posts[i]).created_on <= (
        #[trigger] posts[j]).created_on
}

/// Orders posts by the time they were written, oldest first. Nothing is
/// added or lost; posts of the same time may come in any order.
pub fn sort_by_created_on(posts: Vec<Post>) -> (sorted: Vec<Post>)
    ensures
        oldest_first(sorted@),
        sorted@.to_multiset() == posts@.to_multiset(),
{
    let mut sorted: Vec<Post> = Vec::new();
    let ghost all: Seq<Post> = posts@;
    let count: usize = posts.len();
    let mut n: usize = 0;
    proof {
        assert(all.take(0) =~= sorted@);
    }
    for post in it: posts
        invariant
            n == it.index(),
            it.seq() == all,
            all.len() == count,
            sorted@.len() == n,
            oldest_first(sorted@),
            sorted@.to_multiset() == all.take(n as int).to_multiset(),
    {
        let mut at: usize = sorted.len();
        while at > 0 && sorted[at - 1].created_on > post.created_on
            invariant
                at <= sorted@.len(),
                forall|k: int| at <= k < sorted@.len() ==> (#[trigger] sorted@[k]).created_on
                    > post.created_on,
            decreases at,
        {
            at -= 1;
        }
        let ghost before: Seq<Post> = sorted@;
        sorted.insert(at, post);
        proof {
            to_multiset_insert(before, at as int, post);
            assert(all.take(n + 1) =~= all.take(n as int).push(post));
            to_multiset_build(all.take(n as int), post);
            assert forall|i: int, j: int| 0 <= i <= j < sorted@.len() implies (
            #[trigger] sorted@[i]).created_on <= (#[trigger] sorted@[j]).created_on by {
                let a = if i < at {
                    i
                } else {
                    i - 1
                };
                let b = if j < at {
                    j
                } else {
                    j - 1
                };
                if i != at {
                    assert(sorted@[i] == before[a]);
                }
                if j != at {
                    assert(sorted@[j] == before[b]);
                }
                if i != at && j != at {
                    assert(before[a].created_on <= before[b].created_on);
                }
                if i == at && j != at {
                    assert(before[b].created_on > post.created_on);
                }
                if i != at && j == at {
                    if at > 0 {
                        assert(before[a].created_on <= before[at - 1].created_on);
                    }
                }
            }
        }
        n += 1;
    }
    proof {
        assert(all.take(n as int) =~= all);
    }
    sorted
}

} // verus!
