//! Posts.

use crate::domain::db_id::{decode_with_suffix, relay_id, spec_relay_bytes, CanDecodeId, DbId, HasDbId};
use crate::domain::errors::MappingError;
use crate::encoding::{url_safe_decoding, url_safe_encoding};
use vstd::prelude::*;
use vstd::string::StringSliceAdditionalSpecFns;

verus! {

/// Marks the relay ids of posts.
pub const SUFFIX: &'static str = "Post";

/// A post. `created_on` counts nanoseconds since the Unix epoch.
#[derive(Debug, Clone)]
pub struct Post {
    pub post_id: DbId,
    pub author: DbId,
    pub created_on: i128,
    pub content: String,
}

/// The fields a new post is created from.
#[derive(Debug)]
pub struct PostInput {
    pub content: String,
}

impl HasDbId for Post {
    open spec fn spec_db_id(&self) -> DbId {
        self.post_id
    }

    fn db_id(&self) -> (id: DbId) {
        self.post_id
    }
}

impl CanDecodeId for Post {
    open spec fn spec_suffix() -> Seq<char> {
        SUFFIX@
    }

    fn decode(relay_id: &str) -> (id: Result<DbId, MappingError>) {
        decode_with_suffix(relay_id, SUFFIX)
    }
}

impl Post {
    /// The relay id of the post.
    pub fn id(&self) -> (text: String)
        ensures
            text@ == url_safe_encoding(spec_relay_bytes(self.post_id, SUFFIX.spec_bytes())),
            url_safe_decoding(text@) == Some(spec_relay_bytes(self.post_id, SUFFIX.spec_bytes())),
    {
        proof {
            reveal_strlit("Post");
            broadcast use vstd::string::is_ascii_spec_bytes;

            assert(vstd::string::is_ascii(SUFFIX));
        }
        relay_id(self.post_id, SUFFIX)
    }

    /// When the post was written, in nanoseconds since the Unix epoch.
    pub fn created_on(&self) -> (at: i128)
        ensures
            at == self.created_on,
    {
        self.created_on
    }

    /// What the post says.
    pub fn content(&self) -> (text: &str)
        ensures
            text@ == self.content@,
    {
        self.content.as_str()
    }
}

} // verus!
