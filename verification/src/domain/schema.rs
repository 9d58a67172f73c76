//! What the resolvers decide, apart from loading and saving: which kind of
//! row a relay id names, whose posts a feed shows, and what a batch of change
//! events asks to be loaded.

use crate::domain::app_user::AppUser;
use crate::domain::comment::Comment;
use crate::domain::db_id::{
    id_from_decoded, spec_id_from_decoded, spec_relay_bytes, CanDecodeId, DbId,
};
use crate::domain::errors::GqlError;
use crate::domain::post::Post;
use crate::encoding::{url_safe_decode, url_safe_decoding, url_safe_encoding};
use crate::infrastructure::notification_center::{ListenerTopic, Notification};
use vstd::prelude::*;
use vstd::string::{StringExecFns, StringSliceAdditionalSpecFns};

verus! {

/// Anything a relay id can name.
#[derive(Debug)]
pub enum Node {
    AppUser(AppUser),
    Comment(Comment),
    Post(Post),
}

/// The kinds of row a relay id can name.
#[derive(Debug, Clone, Copy, PartialEq, Eq, Structural)]
pub enum NodeKind {
    AppUser,
    Comment,
    Post,
}

/// Message for a relay id that names no kind of row.
pub const NO_KIND_MATCHED: &'static str = "Given id did not match any available types";

impl Node {
    /// The kind of the row.
    pub fn kind(&self) -> (kind: NodeKind)
        ensures
            kind == match self {
                Node::AppUser(_) => NodeKind::AppUser,
                Node::Comment(_) => NodeKind::Comment,
                Node::Post(_) => NodeKind::Post,
            },
    {
        match self {
            Node::AppUser(_) => NodeKind::AppUser,
            Node::Comment(_) => NodeKind::Comment,
            Node::Post(_) => NodeKind::Post,
        }
    }

    /// The bytes that the relay id of the row encodes.
    pub open spec fn spec_relay_bytes(self) -> Seq<u8> {
        match self {
            Node::AppUser(user) => spec_relay_bytes(
                user.user_id,
                crate::domain::app_user::SUFFIX.spec_bytes(),
            ),
            Node::Comment(comment) => spec_relay_bytes(
                comment.comment_id,
                crate::domain::comment::SUFFIX.spec_bytes(),
            ),
            Node::Post(post) => spec_relay_bytes(
                post.post_id,
                crate::domain::post::SUFFIX.spec_bytes(),
            ),
        }
    }

    /// The relay id of the row.
    pub fn id(&self) -> (text: String)
        ensures
            text@ == url_safe_encoding(self.spec_relay_bytes()),
            url_safe_decoding(text@) == Some(self.spec_relay_bytes()),
    {
        match self {
            Node::AppUser(user) => user.id(),
            Node::Comment(comment) => comment.id(),
            Node::Post(post) => post.id(),
        }
    }
}

/// The identifier that decoded bytes give for rows marked by `suffix`, if
/// they give one.
pub open spec fn id_as(bytes: Seq<u8>, suffix: Seq<char>) -> Option<DbId> {
    match spec_id_from_decoded(bytes, suffix) {
        Some(Ok(id)) => Some(id),
        _ => None,
    }
}

/// The row that decoded relay id bytes name: the first kind, in the order
/// user, comment, post, as which the bytes can be read.
pub open spec fn spec_node_of(bytes: Seq<u8>) -> Option<(NodeKind, DbId)> {
    if let Some(id) = id_as(bytes, AppUser::spec_suffix()) {
        Some((NodeKind::AppUser, id))
    } else if let Some(id) = id_as(bytes, Comment::spec_suffix()) {
        Some((NodeKind::Comment, id))
    } else if let Some(id) = id_as(bytes, Post::spec_suffix()) {
        Some((NodeKind::Post, id))
    } else {
        None
    }
}

/// Which row decoded relay id bytes name, if any.
pub fn node_from_decoded(bytes: &Vec<u8>) -> (named: Option<(NodeKind, DbId)>)
    ensures
        named == spec_node_of(bytes@),
{
    if let Ok(inner_id) = id_from_decoded(bytes, crate::domain::app_user::SUFFIX) {
        return Some((NodeKind::AppUser, inner_id));
    }
    if let Ok(inner_id) = id_from_decoded(bytes, crate::domain::comment::SUFFIX) {
        return Some((NodeKind::Comment, inner_id));
    }
    if let Ok(inner_id) = id_from_decoded(bytes, crate::domain::post::SUFFIX) {
        return Some((NodeKind::Post, inner_id));
    }
    None
}

/// Which row a relay id names. An id that can be read as no kind is an
/// invalid request.
pub fn node_of(relay_id: &str) -> (named: Result<(NodeKind, DbId), GqlError>)
    ensures
        match url_safe_decoding(relay_id@) {
            Some(bytes) => match spec_node_of(bytes) {
                Some(found) => named == Ok::<(NodeKind, DbId), GqlError>(found),
                None => named matches Err(GqlError::InvalidRequest(cause)) && cause@
                    == NO_KIND_MATCHED@,
            },
            None => named matches Err(GqlError::InvalidRequest(cause)) && cause@
                == NO_KIND_MATCHED@,
        },
{
    let named: Option<(NodeKind, DbId)> = match url_safe_decode(relay_id) {
        Ok(bytes) => node_from_decoded(&bytes),
        Err(_) => None,
    };
    match named {
        Some(found) => Ok(found),
        None => Err(GqlError::InvalidRequest(String::from_str(NO_KIND_MATCHED))),
    }
}

/// The user on whose behalf every request runs for now.
pub fn placeholder_viewer() -> (id: DbId)
    ensures
        id == DbId(1),
{
    DbId(1)
}

/// The authors whose posts a user's feed shows: the friends, then the user.
pub fn feed_authors(friend_ids: Vec<DbId>, user_id: DbId) -> (authors: Vec<DbId>)
    ensures
        authors@ == friend_ids@.push(user_id),
{
    let mut authors: Vec<DbId> = friend_ids;
    authors.push(user_id);
    authors
}

/// One user topic per author.
pub open spec fn spec_user_topics(authors: Seq<DbId>) -> Seq<ListenerTopic> {
    Seq::new(authors.len(), |i: int| ListenerTopic::User(authors[i]))
}

/// The topics that a user's home feed listens to: everything written by a
/// friend or by the user.
pub fn feed_topics(friend_ids: Vec<DbId>, user_id: DbId) -> (topics: Vec<ListenerTopic>)
    ensures
        topics@ == spec_user_topics(friend_ids@.push(user_id)),
{
    let authors: Vec<DbId> = feed_authors(friend_ids, user_id);
    let mut topics: Vec<ListenerTopic> = Vec::new();
    let mut i: usize = 0;
    while i < authors.len()
        invariant
            i <= authors.len(),
            topics@ == spec_user_topics(authors@.take(i as int)),
        decreases authors.len() - i,
    {
        topics.push(ListenerTopic::User(authors[i]));
        proof {
            assert(topics@ =~= spec_user_topics(authors@.take(i + 1)));
        }
        i += 1;
    }
    proof {
        assert(authors@.take(i as int) =~= authors@);
    }
    topics
}

/// The posts that a batch of events announces, in the order of the events.
/// Comments announce no post.
pub open spec fn spec_created_posts(notifications: Seq<Notification>) -> Seq<DbId>
    decreases notifications.len(),
{
    if notifications.len() == 0 {
        Seq::<DbId>::empty()
    } else {
        let before = spec_created_posts(notifications.drop_last());
        match notifications.last() {
            Notification::Post(post) => before.push(post.post_id),
            Notification::Comment(_) => before,
        }
    }
}

/// The posts that a batch of events announces.
pub fn created_posts(notifications: &Vec<Notification>) -> (post_ids: Vec<DbId>)
    ensures
        post_ids@ == spec_created_posts(notifications@),
{
    let mut post_ids: Vec<DbId> = Vec::new();
    let mut i: usize = 0;
    while i < notifications.len()
        invariant
            i <= notifications.len(),
            post_ids@ == spec_created_posts(notifications@.take(i as int)),
        decreases notifications.len() - i,
    {
        proof {
            assert(notifications@.take(i + 1).drop_last() =~= notifications@.take(i as int));
            assert(notifications@.take(i + 1).last() == notifications@[i as int]);
        }
        if let Notification::Post(post) = notifications[i] {
            post_ids.push(post.post_id);
        }
        i += 1;
    }
    proof {
        assert(notifications@.take(i as int) =~= notifications@);
    }
    post_ids
}

} // verus!
