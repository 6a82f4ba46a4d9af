use vstd::prelude::*;

verus! {

/// Page size used when the caller gives none.
pub const DEFAULT_LIMIT: i64 = 50;

/// Largest page size a caller may ask for.
pub const MAX_LIMIT: i64 = 100;

/// The page size in force for a requested one: the default when none is
/// given, and never above the cap.
pub open spec fn limit_of(requested: Option<i64>) -> int {
    let l: int = match requested {
        Some(n) => n as int,
        None => DEFAULT_LIMIT as int,
    };
    if l < MAX_LIMIT { l } else { MAX_LIMIT as int }
}

/// How many records a page of limit `limit` may hold: none when the limit
/// is not positive.
pub open spec fn page_room(limit: int) -> nat {
    if limit > 0 { limit as nat } else { 0 }
}

/// The page size in force for `requested`.
pub fn effective_limit(requested: Option<i64>) -> (r: i64)
    ensures
        r == limit_of(requested),
        r <= MAX_LIMIT,
        requested is None ==> r == DEFAULT_LIMIT,
{
    let l: i64 = match requested {
        Some(n) => n,
        None => DEFAULT_LIMIT,
    };
    if l < MAX_LIMIT {
        l
    } else {
        MAX_LIMIT
    }
}

/// How many records a page of limit `limit` may hold: none when the limit
/// is not positive.
pub fn page_capacity(limit: i64) -> (r: i64)
    ensures
        r == page_room(limit as int),
{
    if limit > 0 {
        limit
    } else {
        0
    }
}

} // verus!
