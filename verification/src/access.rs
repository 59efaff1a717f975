//! Per-user library access enforcement: a user is either limited to specific
//! libraries or sees all of them. Owners, and users with no grant rows, are
//! unrestricted; a failed grant lookup denies everything.

use vstd::prelude::*;
use crate::auth::AuthUser;
use crate::folder::{lemma_picks_step, picks};
use crate::text::{chars_eq, chars_of, parse_i64, parse_in_range};

verus! {

/// The library ids of a grant list.
pub open spec fn ids_of(ids: Seq<String>) -> Seq<Seq<char>> {
    ids.map_values(|s: String| s@)
}

/// Whether `library_id` is permitted under the access set `allowed`
/// (`None` = unrestricted).
pub open spec fn spec_allowed(allowed: Option<Vec<String>>, library_id: Seq<char>) -> bool {
    match allowed {
        None => true,
        Some(set) => ids_of(set@).contains(library_id),
    }
}

/// Whether a specific library is permitted under the given access set.
pub fn library_allowed(allowed: &Option<Vec<String>>, library_id: &str) -> (r: bool)
    ensures
        r == spec_allowed(*allowed, library_id@),
{
    match allowed {
        None => true,
        Some(set) => {
            let target = chars_of(library_id);
            let mut i: usize = 0;
            while i < set.len()
                invariant
                    i <= set.len(),
                    target@ == library_id@,
                    spec_allowed(*allowed, library_id@) == ids_of(set@).contains(library_id@),
                    forall|j: int| 0 <= j < i ==> set@[j]@ != library_id@,
                decreases set.len() - i,
            {
                let candidate = chars_of(set[i].as_str());
                if chars_eq(&candidate, &target) {
                    assert(ids_of(set@)[i as int] == library_id@);
                    assert(ids_of(set@).contains(library_id@));
                    return true;
                }
                i = i + 1;
            }
            assert(!ids_of(set@).contains(library_id@)) by {
                if ids_of(set@).contains(library_id@) {
                    let k = choose|k: int| 0 <= k < ids_of(set@).len() && ids_of(set@)[k] == library_id@;
                    assert(set@[k]@ == library_id@);
                }
            }
            false
        },
    }
}

/// The outcome of looking up a user's library grants.
pub enum GrantLookup {
    /// Specific grants are configured: these library ids.
    Granted(Vec<String>),
    /// No grant rows exist for the user.
    NoGrants,
    /// The lookup failed.
    Failed,
}

/// The access set of a user given the outcome of the grant lookup: owners and
/// users without grants are unrestricted (`None`); a failed lookup fails
/// closed (the empty set).
pub fn accessible_library_ids(user: &AuthUser, lookup: GrantLookup) -> (r: Option<Vec<String>>)
    ensures
        user.is_owner ==> r is None,
        !user.is_owner ==> match lookup {
            GrantLookup::Granted(ids) => r == Some(ids),
            GrantLookup::NoGrants => r is None,
            GrantLookup::Failed => r matches Some(v) && v@.len() == 0,
        },
{
    if user.is_owner {
        return None;
    }
    match lookup {
        GrantLookup::Granted(ids) => Some(ids),
        GrantLookup::NoGrants => None,
        GrantLookup::Failed => Some(Vec::new()),
    }
}

/// A failed grant lookup never lets a non-owner see any library.
pub proof fn lemma_failed_lookup_denies_all(allowed: Option<Vec<String>>, library_id: Seq<char>)
    requires
        allowed matches Some(v) && v@.len() == 0,
    ensures
        !spec_allowed(allowed, library_id),
{
}

/// The libraries a listing across libraries searches, by position: those the
/// user may see, in the server's order (a continue-reading entry takes the
/// book from the first of them that has it).
pub fn searchable_libraries(library_ids: &Vec<String>, allowed: &Option<Vec<String>>) -> (out: Vec<usize>)
    ensures
        picks(out@, library_ids@.len() as int, |i: int| spec_allowed(*allowed, library_ids@[i]@)),
{
    let mut out: Vec<usize> = Vec::new();
    let mut i: usize = 0;
    while i < library_ids.len()
        invariant
            i <= library_ids.len(),
            picks(out@, i as int, |j: int| spec_allowed(*allowed, library_ids@[j]@)),
        decreases library_ids.len() - i,
    {
        let keep = library_allowed(allowed, library_ids[i].as_str());
        let ghost before = out@;
        if keep {
            out.push(i);
        }
        proof {
            lemma_picks_step(before, out@, i as int, |j: int| spec_allowed(*allowed, library_ids@[j]@), keep);
        }
        i = i + 1;
    }
    out
}

/// A listing across libraries never searches a library the user may not
/// see.
pub proof fn lemma_searched_libraries_allowed(
    out: Seq<usize>,
    library_ids: Seq<String>,
    allowed: Option<Vec<String>>,
    p: int,
)
    requires
        picks(out, library_ids.len() as int, |i: int| spec_allowed(allowed, library_ids[i]@)),
        0 <= p < out.len(),
    ensures
        out[p] < library_ids.len() && spec_allowed(allowed, library_ids[out[p] as int]@),
{
}

/// The book id of a reading-progress row: its text parsed as an `i64`
/// (`str::parse`); a row whose id does not parse is skipped.
pub fn progress_book_id(book_id: &str) -> (r: Option<i64>)
    ensures
        match parse_in_range(book_id@, true, i64::MIN as int, i64::MAX as int) {
            Some(v) => r == Some(v as i64),
            None => r is None,
        },
{
    parse_i64(&chars_of(book_id))
}

} // verus!
