//! Cursors and page windows over an already loaded list.

use crate::domain::db_id::DbId;
use crate::encoding::{
    from_le_bytes, le_bytes, lemma_le_bytes_round_trip, spec_from_le_bytes, spec_le_bytes,
    url_safe_decode, url_safe_decoding, url_safe_encode, url_safe_encoding,
};
use vstd::prelude::*;
use vstd::string::StringExecFns;

verus! {

/// Position marker in a list: the identifier of the entry it points at.
#[derive(Debug, Clone, Copy, PartialEq, Eq, Structural)]
pub struct AppCursor(pub DbId);

/// Why a text is no cursor.
#[derive(Debug)]
pub struct AppCursorError(pub String);

/// Message for a cursor text that is no base64.
pub const CURSOR_NOT_DECODED: &'static str = "Could not decode cursor";

/// Message for a cursor text that decodes to something other than four bytes.
pub const CURSOR_UNEXPECTED: &'static str = "Cursor had unexpected content";

impl AppCursorError {
    /// The text shown for this error.
    pub fn to_string(&self) -> (text: String)
        ensures
            text@ == self.0@,
    {
        self.0.clone()
    }
}

impl AppCursor {
    /// The cursor that decoded bytes stand for: exactly four bytes, the
    /// identifier least significant byte first. `None` stands for a text that
    /// was no base64.
    pub open spec fn spec_from_decoded(decoded: Option<Seq<u8>>) -> Result<AppCursor, Seq<char>> {
        match decoded {
            None => Err(CURSOR_NOT_DECODED@),
            Some(bytes) => if bytes.len() == 4 {
                Ok(AppCursor(DbId(spec_from_le_bytes(bytes))))
            } else {
                Err(CURSOR_UNEXPECTED@)
            },
        }
    }

    /// Reads a cursor from what decoding its text gave.
    pub fn from_decoded(decoded: Option<Vec<u8>>) -> (cursor: Result<AppCursor, AppCursorError>)
        ensures
            match AppCursor::spec_from_decoded(
                match decoded {
                    Some(bytes) => Some(bytes@),
                    None => None,
                },
            ) {
                Ok(expected) => cursor == Ok::<AppCursor, AppCursorError>(expected),
                Err(message) => cursor matches Err(e) && e.0@ == message,
            },
    {
        match decoded {
            None => Err(AppCursorError(String::from_str(CURSOR_NOT_DECODED))),
            Some(bytes) => {
                if bytes.len() == 4 {
                    Ok(AppCursor(DbId(from_le_bytes(&bytes))))
                } else {
                    Err(AppCursorError(String::from_str(CURSOR_UNEXPECTED)))
                }
            },
        }
    }

    /// Reads a cursor from its text: URL-safe base64 of four bytes.
    pub fn decode_cursor(s: &str) -> (cursor: Result<AppCursor, AppCursorError>)
        ensures
            match AppCursor::spec_from_decoded(url_safe_decoding(s@)) {
                Ok(expected) => cursor == Ok::<AppCursor, AppCursorError>(expected),
                Err(message) => cursor matches Err(e) && e.0@ == message,
            },
    {
        match url_safe_decode(s) {
            Ok(bytes) => AppCursor::from_decoded(Some(bytes)),
            Err(_) => AppCursor::from_decoded(None),
        }
    }

    /// The text of the cursor: URL-safe base64 of the identifier's four
    /// bytes, least significant first.
    pub fn encode_cursor(&self) -> (text: String)
        ensures
            text@ == url_safe_encoding(spec_le_bytes(self.0.0)),
            url_safe_decoding(text@) == Some(spec_le_bytes(self.0.0)),
    {
        let bytes: Vec<u8> = le_bytes(self.0.0);
        url_safe_encode(&bytes)
    }
}

/// A cursor read back from the bytes it was written as is the same cursor.
pub proof fn lemma_cursor_round_trip(cursor: AppCursor)
    ensures
        AppCursor::spec_from_decoded(Some(spec_le_bytes(cursor.0.0))) == Ok::<
            AppCursor,
            Seq<char>,
        >(cursor),
{
    lemma_le_bytes_round_trip(cursor.0.0);
}

/// A count of at least one, less one: how far a page of `count` entries
/// reaches beyond its first. A count of zero is read as one.
pub open spec fn reach(count: usize) -> int {
    if count == 0 {
        0
    } else {
        count - 1
    }
}

/// The inclusive range of positions that a page request selects from a list
/// of `results_len` entries.
///
/// `after` and `before` are positions of the entries named by the cursors;
/// the page starts behind `after` and ends ahead of `before`. `first` keeps
/// that many entries from the start, else `last` keeps that many from the
/// end. There is no range when `after` lies outside the list, when `before`
/// is the first position, or when nothing lies between the two.
pub open spec fn spec_determine_range(
    after: Option<usize>,
    before: Option<usize>,
    first: Option<usize>,
    last: Option<usize>,
    results_len: usize,
) -> Option<(usize, usize)> {
    let start: int = match after {
        Some(a) => a + 1,
        None => 0,
    };
    let end: int = match before {
        Some(b) => b - 1,
        None => if results_len == 0 {
            0
        } else {
            results_len - 1
        },
    };
    if (after matches Some(a) && a >= results_len) || before == Some(0usize) || start > end {
        None
    } else {
        match (first, last) {
            (Some(f), _) => Some(
                (
                    start as usize,
                    (if end <= start + reach(f) {
                        end
                    } else {
                        start + reach(f)
                    }) as usize,
                ),
            ),
            (None, Some(l)) => Some(
                (
                    (if start >= end - reach(l) {
                        start
                    } else {
                        end - reach(l)
                    }) as usize,
                    end as usize,
                ),
            ),
            (None, None) => Some((start as usize, end as usize)),
        }
    }
}

/// A page lies inside the list, strictly between the two cursor positions,
/// and holds no more entries than were asked for.
pub proof fn lemma_range_bounds(
    after: Option<usize>,
    before: Option<usize>,
    first: Option<usize>,
    last: Option<usize>,
    results_len: usize,
)
    requires
        results_len > 0,
        before matches Some(b) ==> b <= results_len,
        spec_determine_range(after, before, first, last, results_len) is Some,
    ensures
        ({
            let (start, end) = spec_determine_range(after, before, first, last, results_len)->0;
            &&& start <= end < results_len
            &&& after matches Some(a) ==> a < start
            &&& before matches Some(b) ==> end < b
            &&& first matches Some(f) ==> end - start <= reach(f)
            &&& first is None ==> (last matches Some(l) ==> end - start <= reach(l))
            &&& first is None && last is None ==> {
                &&& after is None ==> start == 0
                &&& before is None ==> end == results_len - 1
            }
        }),
{
}

/// Without cursors and counts the page is the whole list.
pub proof fn lemma_range_of_everything(results_len: usize)
    requires
        results_len > 0,
    ensures
        spec_determine_range(None, None, None, None, results_len) == Some(
            (0usize, (results_len - 1) as usize),
        ),
{
}

/// The inclusive range of positions that a page request selects.
pub fn determine_range(
    after: Option<usize>,
    before: Option<usize>,
    first: Option<usize>,
    last: Option<usize>,
    results_len: usize,
) -> (range: Option<(usize, usize)>)
    ensures
        range == spec_determine_range(after, before, first, last, results_len),
        range matches Some((start, end)) ==> start <= end,
{
    let mut start: usize = 0;
    let mut end: usize = results_len.saturating_sub(1);

    if let Some(after) = after {
        if after >= results_len {
            return None;
        }
        start = after + 1;
    }
    if let Some(before) = before {
        if before == 0 {
            return None;
        }
        end = before.saturating_sub(1);
    }
    if start > end {
        return None;
    }
    if let Some(first) = first {
        let offset: usize = first.saturating_sub(1);
        if offset < end - start {
            end = start + offset;
        }
    } else if let Some(last) = last {
        let offset: usize = last.saturating_sub(1);
        if offset < end - start {
            start = end - offset;
        }
    }
    Some((start, end))
}

/// The first position in `ids` that holds `wanted`.
pub fn position_of(ids: &Vec<DbId>, wanted: DbId) -> (found: Option<usize>)
    ensures
        match found {
            Some(at) => at < ids@.len() && ids@[at as int] == wanted && forall|k: int|
                0 <= k < at ==> ids@[k] != wanted,
            None => forall|k: int| 0 <= k < ids@.len() ==> ids@[k] != wanted,
        },
{
    let mut i: usize = 0;
    while i < ids.len()
        invariant
            i <= ids.len(),
            forall|k: int| 0 <= k < i ==> ids@[k] != wanted,
        decreases ids.len() - i,
    {
        if ids[i] == wanted {
            return Some(i);
        }
        i += 1;
    }
    None
}

/// A page cut out of a list: the inclusive range of positions it holds, and
/// whether the list goes on at either side.
#[derive(Debug, Clone, Copy, PartialEq, Eq, Structural)]
pub struct PageWindow {
    pub start: usize,
    pub end: usize,
    pub has_previous_page: bool,
    pub has_next_page: bool,
}

/// The position that a cursor points at, if the cursor is given and names an
/// entry of the list.
pub open spec fn spec_cursor_position(ids: Seq<DbId>, cursor: Option<DbId>) -> Option<usize> {
    match cursor {
        Some(wanted) => if ids.contains(wanted) {
            Some(ids.index_of_first(wanted).unwrap() as usize)
        } else {
            None
        },
        None => None,
    }
}

/// The page window that a request selects from the entries with the given
/// identifiers.
///
/// A cursor that names no entry counts as absent. There is no window when
/// the positions select no range, or when the list is empty. A window has a
/// previous page when it does not start at the front; it has a next page when
/// its end position is smaller than the number of entries outside the window.
pub open spec fn spec_page_window(
    after: Option<DbId>,
    before: Option<DbId>,
    first: Option<usize>,
    last: Option<usize>,
    ids: Seq<DbId>,
) -> Option<PageWindow> {
    match spec_determine_range(
        spec_cursor_position(ids, after),
        spec_cursor_position(ids, before),
        first,
        last,
        ids.len() as usize,
    ) {
        None => None,
        Some((start, end)) => if end >= ids.len() {
            None
        } else {
            Some(
                PageWindow {
                    start,
                    end,
                    has_previous_page: start > 0,
                    has_next_page: end < ids.len() - (end - start + 1),
                },
            )
        },
    }
}

/// The position that a cursor points at.
pub fn cursor_position(ids: &Vec<DbId>, cursor: Option<DbId>) -> (at: Option<usize>)
    ensures
        at == spec_cursor_position(ids@, cursor),
{
    match cursor {
        Some(wanted) => {
            let found: Option<usize> = position_of(ids, wanted);
            proof {
                match found {
                    Some(at) => {
                        assert(ids@.contains(wanted));
                        ids@.index_of_first_ensures(wanted);
                        let first = ids@.index_of_first(wanted).unwrap();
                        assert(first == at) by {
                            if first < at {
                                assert(ids@[first] != wanted);
                            }
                            if at < first {
                                assert(ids@[at as int] == wanted);
                            }
                        }
                    },
                    None => {
                        if ids@.contains(wanted) {
                            let k = choose|k: int| 0 <= k < ids@.len() && ids@[k] == wanted;
                            assert(ids@[k] != wanted);
                        }
                    },
                }
            }
            found
        },
        None => None,
    }
}

/// The page window that a request selects.
pub fn page_window(
    after: Option<DbId>,
    before: Option<DbId>,
    first: Option<usize>,
    last: Option<usize>,
    ids: &Vec<DbId>,
) -> (window: Option<PageWindow>)
    ensures
        window == spec_page_window(after, before, first, last, ids@),
        window matches Some(w) ==> w.start <= w.end < ids@.len(),
{
    let after_at: Option<usize> = cursor_position(ids, after);
    let before_at: Option<usize> = cursor_position(ids, before);
    match determine_range(after_at, before_at, first, last, ids.len()) {
        None => None,
        Some((start, end)) => {
            if end >= ids.len() {
                None
            } else {
                let outside: usize = ids.len() - (end - start + 1);
                Some(
                    PageWindow {
                        start,
                        end,
                        has_previous_page: start > 0,
                        has_next_page: end < outside,
                    },
                )
            }
        },
    }
}

} // verus!
