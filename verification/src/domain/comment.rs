//! Comments under posts.

use crate::domain::db_id::{decode_with_suffix, relay_id, spec_relay_bytes, CanDecodeId, DbId, HasDbId};
use crate::domain::errors::MappingError;
use crate::encoding::{url_safe_decoding, url_safe_encoding};
use vstd::prelude::*;
use vstd::string::StringSliceAdditionalSpecFns;

verus! {

/// Marks the relay ids of comments.
pub const SUFFIX: &'static str = "Comment";

/// A comment. `created_on` counts nanoseconds since the Unix epoch.
#[derive(Debug, Clone)]
pub struct Comment {
    pub comment_id: DbId,
    pub referenced_post: DbId,
    pub author: DbId,
    pub created_on: i128,
    pub content: String,
}

/// The fields a new comment is created from; author and post are given by
/// their relay ids.
#[derive(Debug)]
pub struct CommentInput {
    pub author: String,
    pub content: String,
    pub referenced_post: String,
}

impl HasDbId for Comment {
    open spec fn spec_db_id(&self) -> DbId {
        self.comment_id
    }

    fn db_id(&self) -> (id: DbId) {
        self.comment_id
    }
}

impl CanDecodeId for Comment {
    open spec fn spec_suffix() -> Seq<char> {
        SUFFIX@
    }

    fn decode(relay_id: &str) -> (id: Result<DbId, MappingError>) {
        decode_with_suffix(relay_id, SUFFIX)
    }
}

impl Comment {
    /// The relay id of the comment.
    pub fn id(&self) -> (text: String)
        ensures
            text@ == url_safe_encoding(spec_relay_bytes(self.comment_id, SUFFIX.spec_bytes())),
            url_safe_decoding(text@) == Some(spec_relay_bytes(self.comment_id, SUFFIX.spec_bytes())),
    {
        proof {
            reveal_strlit("Comment");
            broadcast use vstd::string::is_ascii_spec_bytes;

            assert(vstd::string::is_ascii(SUFFIX));
        }
        relay_id(self.comment_id, SUFFIX)
    }

    /// When the comment was written, in nanoseconds since the Unix epoch.
    pub fn created_on(&self) -> (at: i128)
        ensures
            at == self.created_on,
    {
        self.created_on
    }

    /// What the comment says.
    pub fn content(&self) -> (text: &str)
        ensures
            text@ == self.content@,
    {
        self.content.as_str()
    }
}

} // verus!
