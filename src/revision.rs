use crate::error::AuthError;
use vstd::prelude::*;

verus! {

/// The identifying columns of one page revision.
#[derive(Clone, Copy, Debug, PartialEq, Eq, Structural)]
pub struct PageRevision {
    pub revision_id: i64,
    pub site_id: i64,
    pub page_id: i64,
    pub revision_number: i32,
}

/// What creating a revision reports.
#[derive(Clone, Copy, Debug, PartialEq, Eq, Structural)]
pub struct CreateRevisionOutput {
    pub revision_id: i64,
    pub revision_number: i32,
}

/// Whether `r` is a revision of page `page_id` on site `site_id`.
pub open spec fn of_page(r: PageRevision, site_id: i64, page_id: i64) -> bool {
    r.site_id == site_id && r.page_id == page_id
}

/// Lookups over the revisions of pages.
pub struct RevisionService;

impl RevisionService {
    /// The revision of the page with the highest number. Every existing page
    /// has one, so `NotFound` means the page does not exist.
    pub fn get_latest(revisions: &Vec<PageRevision>, site_id: i64, page_id: i64) -> (r: Result<
        PageRevision,
        AuthError,
    >)
        ensures
            r matches Ok(x) ==> revisions@.contains(x) && of_page(x, site_id, page_id) && forall|
                j: int,
            |
                0 <= j < revisions@.len() && of_page(revisions@[j], site_id, page_id)
                    ==> #[trigger] revisions@[j].revision_number <= x.revision_number,
            r is Err <==> forall|j: int|
                0 <= j < revisions@.len() ==> !of_page(#[trigger] revisions@[j], site_id, page_id),
            r is Err ==> r == Err::<PageRevision, AuthError>(AuthError::NotFound),
    {
        let mut best: Option<PageRevision> = None;
        let mut i: usize = 0;
        while i < revisions.len()
            invariant
                i <= revisions@.len(),
                best matches Some(x) ==> revisions@.contains(x) && of_page(x, site_id, page_id)
                    && forall|j: int|
                    0 <= j < i && of_page(revisions@[j], site_id, page_id)
                        ==> #[trigger] revisions@[j].revision_number <= x.revision_number,
                best is None ==> forall|j: int|
                    0 <= j < i ==> !of_page(#[trigger] revisions@[j], site_id, page_id),
            decreases revisions@.len() - i,
        {
            let r = revisions[i];
            if r.site_id == site_id && r.page_id == page_id {
                match best {
                    Some(x) => {
                        if r.revision_number > x.revision_number {
                            best = Some(r);
                        }
                    },
                    None => {
                        best = Some(r);
                    },
                }
            }
            i += 1;
        }
        match best {
            Some(x) => Ok(x),
            None => Err(AuthError::NotFound),
        }
    }

    /// The revision of the page with the given number, if there is one.
    pub fn get_optional(
        revisions: &Vec<PageRevision>,
        site_id: i64,
        page_id: i64,
        revision_number: i32,
    ) -> (r: Option<PageRevision>)
        ensures
            r matches Some(x) ==> revisions@.contains(x) && of_page(x, site_id, page_id)
                && x.revision_number == revision_number,
            r is None <==> forall|j: int|
                0 <= j < revisions@.len() ==> !(of_page(#[trigger] revisions@[j], site_id, page_id)
                    && revisions@[j].revision_number == revision_number),
    {
        let mut i: usize = 0;
        while i < revisions.len()
            invariant
                i <= revisions@.len(),
                forall|j: int|
                    0 <= j < i ==> !(of_page(#[trigger] revisions@[j], site_id, page_id)
                        && revisions@[j].revision_number == revision_number),
            decreases revisions@.len() - i,
        {
            let r = revisions[i];
            if r.site_id == site_id && r.page_id == page_id && r.revision_number == revision_number {
                assert(revisions@[i as int] == r);
                return Some(r);
            }
            i += 1;
        }
        None
    }

    /// Whether the page has a revision with the given number.
    pub fn has_revision(revisions: &Vec<PageRevision>, site_id: i64, page_id: i64, revision_number: i32) -> (r:
        bool)
        ensures
            r == exists|j: int|
                0 <= j < revisions@.len() && of_page(#[trigger] revisions@[j], site_id, page_id)
                    && revisions@[j].revision_number == revision_number,
    {
        Self::get_optional(revisions, site_id, page_id, revision_number).is_some()
    }

    /// The revision of the page with the given number, or `NotFound`.
    pub fn get(revisions: &Vec<PageRevision>, site_id: i64, page_id: i64, revision_number: i32) -> (r:
        Result<PageRevision, AuthError>)
        ensures
            r matches Ok(x) ==> revisions@.contains(x) && of_page(x, site_id, page_id)
                && x.revision_number == revision_number,
            r is Err <==> forall|j: int|
                0 <= j < revisions@.len() ==> !(of_page(#[trigger] revisions@[j], site_id, page_id)
                    && revisions@[j].revision_number == revision_number),
            r is Err ==> r == Err::<PageRevision, AuthError>(AuthError::NotFound),
    {
        match Self::get_optional(revisions, site_id, page_id, revision_number) {
            Some(x) => Ok(x),
            None => Err(AuthError::NotFound),
        }
    }
}

} // verus!
