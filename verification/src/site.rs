//! Resolving the controller's id for the configured site.

use vstd::prelude::*;
use vstd::string::*;

use crate::error::{internal_error, is_internal, ToolError};
use crate::rows::{find, first_where};
use crate::scan::PageRequest;
use crate::text::{opt_string, same_text};

verus! {

/// Page size for the site catalog scan.
pub const SITES_PAGE_LIMIT: u32 = 100;

/// Ceiling on scanned site rows. The controller-reported total is not an
/// in-server bound, so the scan refuses loudly past this point rather than
/// letting a console that promises an endless catalog spend unbounded
/// upstream requests.
pub const SITES_SCAN_CEILING: u64 = 10_000;

/// One site of the catalog.
pub struct Site {
    pub id: String,
    pub internal_reference: Option<String>,
}

/// A scan for the configured site: the offset of the next page, and the sole
/// site of the catalog where the first page showed that there is only one.
pub struct SiteScan {
    pub offset: u64,
    pub sole: Option<String>,
}

/// What the scan does after a page.
pub enum SiteStep {
    /// Fetch the page at this offset.
    Fetch(PageRequest),
    /// The site was resolved.
    Found(String),
    /// The scan ended without it.
    Refused(ToolError),
}

/// The scan before its first page.
pub fn begin_site_scan() -> (scan: SiteScan)
    ensures
        scan.offset == 0,
        scan.sole is None,
{
    SiteScan { offset: 0, sole: None }
}

/// The step of a call for the site id before anything is read: the id that is
/// kept, or the first page of the catalog.
pub open spec fn first_step(cached: Option<String>) -> SiteStep {
    match cached {
        Some(id) => SiteStep::Found(id),
        None => SiteStep::Fetch(PageRequest { offset: 0, limit: SITES_PAGE_LIMIT }),
    }
}

/// Begins a call for the site id. An id that is kept is the answer, with no
/// request; without one the catalog is read from its first page.
pub fn begin_site(cached: Option<String>) -> (step: SiteStep)
    ensures
        step == first_step(cached),
{
    match cached {
        Some(id) => SiteStep::Found(id),
        None => SiteStep::Fetch(PageRequest { offset: 0, limit: SITES_PAGE_LIMIT }),
    }
}

/// The id a step resolved.
pub open spec fn found_by(step: SiteStep) -> Option<String> {
    match step {
        SiteStep::Found(id) => Some(id),
        _ => None,
    }
}

/// The id that is kept once a call came to an id or to none.
pub open spec fn kept(cached: Option<String>, found: Option<String>) -> Option<String> {
    match cached {
        Some(id) => Some(id),
        None => found,
    }
}

/// The id that is kept after the last step of a call. Only success is kept,
/// so a controller outage is retried per call, and the first success stays.
pub fn keep_site(cached: Option<String>, step: &SiteStep) -> (keeps: Option<String>)
    ensures
        keeps == kept(cached, found_by(*step)),
{
    match cached {
        Some(id) => Some(id),
        None => match step {
            SiteStep::Found(id) => Some(id.clone()),
            _ => None,
        },
    }
}

/// The test for the configured site.
pub open spec fn refers_to(legacy_site: Seq<char>) -> spec_fn(Site) -> bool {
    |site: Site| opt_string(site.internal_reference) == Some(legacy_site)
}

/// The sole site once a page was seen.
pub open spec fn sole_after(scan: SiteScan, data: Seq<Site>, total: int) -> Option<String> {
    if scan.offset == 0 && total == 1 && data.len() == 1 {
        Some(data[0].id)
    } else {
        scan.sole
    }
}

/// The refusal of a catalog beyond the ceiling.
pub open spec fn site_ceiling_message() -> Seq<char> {
    "the configured site was not found within the site-scan ceiling; refusing to page further through the catalog the controller reports"@
}

/// The refusal where the configured site does not exist.
pub open spec fn site_missing_message() -> Seq<char> {
    "configured site was not found on the controller"@
}

/// What a scan comes to after a page.
pub enum SiteOutcome {
    /// It goes on from here.
    Next(SiteScan),
    /// The site was resolved.
    Found(String),
    /// The catalog ended without it.
    Missing,
    /// The ceiling was reached with rows remaining.
    Beyond,
}

/// What a scan comes to after a page of a catalog that was reported to hold
/// `total` rows.
pub open spec fn site_outcome(
    scan: SiteScan,
    data: Seq<Site>,
    total: int,
    legacy_site: Seq<char>,
) -> SiteOutcome {
    let named = first_where(data, refers_to(legacy_site));
    let next = scan.offset + data.len();
    let sole = sole_after(scan, data, total);
    if named is Some {
        SiteOutcome::Found(named->Some_0.id)
    } else if data.len() == 0 || next >= total {
        match sole {
            Some(id) => SiteOutcome::Found(id),
            None => SiteOutcome::Missing,
        }
    } else if next >= SITES_SCAN_CEILING {
        SiteOutcome::Beyond
    } else {
        SiteOutcome::Next(SiteScan { offset: next as u64, sole })
    }
}

/// Takes one page of the site catalog: the site whose internal reference is
/// the configured one wins; the sole site stands in where the catalog ends
/// without it; a catalog beyond the ceiling is refused, never truncated.
pub fn site_page(scan: &mut SiteScan, legacy_site: &str, data: Vec<Site>, total_count: u64) -> (step:
    SiteStep)
    requires
        old(scan).offset + data@.len() <= u64::MAX,
    ensures
        match site_outcome(*old(scan), data@, total_count as int, legacy_site@) {
            SiteOutcome::Found(id) => step == SiteStep::Found(id),
            SiteOutcome::Missing => step is Refused && is_internal(
                step->Refused_0,
                site_missing_message(),
            ),
            SiteOutcome::Beyond => step is Refused && is_internal(
                step->Refused_0,
                site_ceiling_message(),
            ),
            SiteOutcome::Next(after) => {
                &&& *final(scan) == after
                &&& step == SiteStep::Fetch(
                    PageRequest { offset: after.offset, limit: SITES_PAGE_LIMIT },
                )
            },
        },
        first_where(data@, refers_to(legacy_site@)) is Some ==> *final(scan) == *old(scan),
        first_where(data@, refers_to(legacy_site@)) is None ==> {
            &&& final(scan).offset == old(scan).offset + data@.len()
            &&& final(scan).sole == sole_after(*old(scan), data@, total_count as int)
        },
{
    let test = |site: &Site| -> (answer: bool)
        ensures
            answer == (opt_string(site.internal_reference) == Some(legacy_site@))
    {
        match &site.internal_reference {
            Some(reference) => same_text(reference.as_str(), legacy_site),
            None => false,
        }
    };
    if let Some(at) = find(&data, test, Ghost(refers_to(legacy_site@))) {
        return SiteStep::Found(data[at].id.clone());
    }
    if scan.offset == 0 && total_count == 1 && data.len() == 1 {
        scan.sole = Some(data[0].id.clone());
    }
    scan.offset = scan.offset + data.len() as u64;
    if data.len() == 0 || scan.offset >= total_count {
        return match scan.sole.clone() {
            Some(id) => SiteStep::Found(id),
            None => SiteStep::Refused(
                internal_error("configured site was not found on the controller"),
            ),
        };
    }
    if scan.offset >= SITES_SCAN_CEILING {
        return SiteStep::Refused(
            internal_error(
                "the configured site was not found within the site-scan ceiling; refusing to page further through the catalog the controller reports",
            ),
        );
    }
    SiteStep::Fetch(PageRequest { offset: scan.offset, limit: SITES_PAGE_LIMIT })
}

// ---------------------------------------------------------------------------
// Laws
// ---------------------------------------------------------------------------

/// The rows of a list of pages.
pub open spec fn rows_in(pages: Seq<Seq<Site>>) -> Seq<Site>
    decreases pages.len(),
{
    if pages.len() == 0 {
        Seq::empty()
    } else {
        pages[0] + rows_in(pages.drop_first())
    }
}

/// What a scan comes to over the pages of a catalog, fetched one by one until
/// it ends.
pub open spec fn resolution(
    scan: SiteScan,
    pages: Seq<Seq<Site>>,
    total: int,
    legacy_site: Seq<char>,
) -> SiteOutcome
    decreases pages.len(),
{
    if pages.len() == 0 {
        SiteOutcome::Next(scan)
    } else {
        match site_outcome(scan, pages[0], total, legacy_site) {
            SiteOutcome::Next(after) => resolution(after, pages.drop_first(), total, legacy_site),
            end => end,
        }
    }
}

/// The first rows of a catalog, up to the scan ceiling.
pub open spec fn within_ceiling(rows: Seq<Site>) -> Seq<Site> {
    if rows.len() <= SITES_SCAN_CEILING {
        rows
    } else {
        rows.take(SITES_SCAN_CEILING as int)
    }
}

/// Which site a whole scan gives, over a catalog served in pages of any size
/// that each report its true length. The first row with the configured
/// reference wins wherever it stands within the ceiling. Where no row has it,
/// the only site of a catalog of one stands in, and any other catalog is
/// refused. The scan never answers from a part of the catalog: it is answered
/// with the first match of all rows or the only row, refused as missing only
/// where no row matches, and refused at the ceiling only where rows remain.
pub proof fn law_whole_scan_resolves_the_site(pages: Seq<Seq<Site>>, legacy_site: Seq<char>)
    requires
        pages.len() > 0,
        rows_in(pages).len() <= u64::MAX,
        pages.len() == 1 || forall|i: int| 0 <= i < pages.len() ==> (#[trigger] pages[i]).len() > 0,
    ensures
        ({
            let rows = rows_in(pages);
            let test = refers_to(legacy_site);
            let named = first_where(rows, test);
            let end = resolution(
                SiteScan { offset: 0, sole: None },
                pages,
                rows.len() as int,
                legacy_site,
            );
            &&& first_where(within_ceiling(rows), test) is Some ==> named is Some && end
                == SiteOutcome::Found(named->Some_0.id)
            &&& named is None && rows.len() == 1 ==> end == SiteOutcome::Found(rows[0].id)
            &&& named is None && rows.len() != 1 ==> end is Missing || end is Beyond
            &&& end is Found && named is Some ==> end == SiteOutcome::Found(named->Some_0.id)
            &&& end is Missing ==> named is None
            &&& end is Beyond ==> rows.len() > SITES_SCAN_CEILING
            &&& !(end is Next)
        }),
{
    let rows = rows_in(pages);
    let scan = SiteScan { offset: 0, sole: None };
    assert(Seq::<Site>::empty() + rows =~= rows);
    if rows.len() == 0 {
        if pages.len() > 1 {
            assert(pages[0].len() > 0);
        }
        assert(rows_in(pages.drop_first()) =~= Seq::empty());
        assert(pages[0] =~= rows);
    } else {
        if pages.len() == 1 {
            assert(rows_in(pages.drop_first()) =~= Seq::empty());
            assert(rows =~= pages[0]);
        }
        lemma_resolution(Seq::empty(), scan, pages, rows, legacy_site);
    }
}

/// What the controller serves one call for the site id: the pages, up to the
/// first read that fails, and the number of rows they report.
pub struct Catalog {
    pub pages: Seq<Seq<Site>>,
    pub total: int,
}

/// The id a scan resolved.
pub open spec fn found_in(end: SiteOutcome) -> Option<String> {
    match end {
        SiteOutcome::Found(id) => Some(id),
        _ => None,
    }
}

/// The id a scan of what is served comes to, from the first page.
pub open spec fn scanned(served: Catalog, legacy_site: Seq<char>) -> Option<String> {
    found_in(
        resolution(SiteScan { offset: 0, sole: None }, served.pages, served.total, legacy_site),
    )
}

/// The id a call gives: a call whose first step is not the answer reads what
/// is served.
pub open spec fn answered(
    cached: Option<String>,
    served: Catalog,
    legacy_site: Seq<char>,
) -> Option<String> {
    match first_step(cached) {
        SiteStep::Found(id) => Some(id),
        _ => scanned(served, legacy_site),
    }
}

/// The id that is kept after a sequence of calls.
pub open spec fn kept_after(calls: Seq<Catalog>, legacy_site: Seq<char>) -> Option<String>
    decreases calls.len(),
{
    if calls.len() == 0 {
        None
    } else {
        let cached = kept_after(calls.drop_last(), legacy_site);
        kept(cached, answered(cached, calls.last(), legacy_site))
    }
}

/// The id the call at a position of a sequence gives.
pub open spec fn answer_at(
    calls: Seq<Catalog>,
    at: int,
    legacy_site: Seq<char>,
) -> Option<String> {
    answered(kept_after(calls.take(at), legacy_site), calls[at], legacy_site)
}

/// Once a call gave an id, every later call gives that id with no request,
/// whatever the controller would serve.
pub proof fn law_resolved_site_is_kept(
    calls: Seq<Catalog>,
    legacy_site: Seq<char>,
    at: int,
    later: int,
)
    requires
        0 <= at < later < calls.len(),
        answer_at(calls, at, legacy_site) is Some,
    ensures
        first_step(kept_after(calls.take(later), legacy_site)) == SiteStep::Found(
            answer_at(calls, at, legacy_site)->Some_0,
        ),
        answer_at(calls, later, legacy_site) == answer_at(calls, at, legacy_site),
    decreases later,
{
    assert(calls.take(later).drop_last() =~= calls.take(later - 1));
    assert(calls.take(later).last() == calls[later - 1]);
    if at < later - 1 {
        law_resolved_site_is_kept(calls, legacy_site, at, later - 1);
    }
}

/// After a call that gave no id, the next call reads the catalog again from
/// its first page and gives what that scan comes to.
pub proof fn law_failed_resolution_is_tried_again(
    calls: Seq<Catalog>,
    legacy_site: Seq<char>,
    at: int,
)
    requires
        0 <= at < calls.len() - 1,
        answer_at(calls, at, legacy_site) is None,
    ensures
        first_step(kept_after(calls.take(at + 1), legacy_site)) == SiteStep::Fetch(
            PageRequest { offset: 0, limit: SITES_PAGE_LIMIT },
        ),
        answer_at(calls, at + 1, legacy_site) == scanned(calls[at + 1], legacy_site),
{
    assert(calls.take(at + 1).drop_last() =~= calls.take(at));
    assert(calls.take(at + 1).last() == calls[at]);
}

proof fn lemma_first_where_joined(a: Seq<Site>, b: Seq<Site>, test: spec_fn(Site) -> bool)
    ensures
        first_where(a + b, test) == (match first_where(a, test) {
            Some(site) => Some(site),
            None => first_where(b, test),
        }),
    decreases a.len(),
{
    if a.len() == 0 {
        assert(a + b =~= b);
    } else {
        assert((a + b)[0] == a[0]);
        assert((a + b).drop_first() =~= a.drop_first() + b);
        lemma_first_where_joined(a.drop_first(), b, test);
    }
}

proof fn lemma_resolution(
    seen: Seq<Site>,
    scan: SiteScan,
    pages: Seq<Seq<Site>>,
    rows: Seq<Site>,
    legacy_site: Seq<char>,
)
    requires
        pages.len() > 0,
        forall|i: int| 0 <= i < pages.len() ==> (#[trigger] pages[i]).len() > 0,
        seen + rows_in(pages) == rows,
        rows.len() <= u64::MAX,
        scan.offset == seen.len(),
        seen.len() < SITES_SCAN_CEILING,
        scan.sole is None,
        first_where(seen, refers_to(legacy_site)) is None,
    ensures
        ({
            let test = refers_to(legacy_site);
            let named = first_where(rows, test);
            let end = resolution(scan, pages, rows.len() as int, legacy_site);
            &&& first_where(within_ceiling(rows), test) is Some ==> named is Some && end
                == SiteOutcome::Found(named->Some_0.id)
            &&& named is None && rows.len() == 1 ==> end == SiteOutcome::Found(rows[0].id)
            &&& named is None && rows.len() != 1 ==> end is Missing || end is Beyond
            &&& end is Found && named is Some ==> end == SiteOutcome::Found(named->Some_0.id)
            &&& end is Missing ==> named is None
            &&& end is Beyond ==> rows.len() > SITES_SCAN_CEILING
            &&& !(end is Next)
        }),
    decreases pages.len(),
{
    let test = refers_to(legacy_site);
    let data = pages[0];
    let left = pages.drop_first();
    let read = seen + data;
    assert(rows =~= read + rows_in(left));
    lemma_first_where_joined(seen, data, test);
    lemma_first_where_joined(read, rows_in(left), test);
    let inside = within_ceiling(rows);
    assert(inside + rows.skip(inside.len() as int) =~= rows);
    lemma_first_where_joined(inside, rows.skip(inside.len() as int), test);
    if left.len() > 0 {
        assert(left[0] == pages[1]);
        assert(rows_in(left).len() > 0);
    }
    if first_where(data, test) is None {
        if read.len() >= rows.len() {
            assert(rows_in(left).len() == 0);
            assert(rows_in(left) =~= Seq::empty());
            assert(rows =~= read);
            if rows.len() == 1 {
                assert(data.len() == 1 && seen.len() == 0);
                assert(rows[0] == data[0]);
            }
        } else if read.len() >= SITES_SCAN_CEILING {
            assert(inside =~= read.take(SITES_SCAN_CEILING as int));
            assert(inside + read.skip(SITES_SCAN_CEILING as int) =~= read);
            lemma_first_where_joined(inside, read.skip(SITES_SCAN_CEILING as int), test);
        } else {
            assert(left.len() > 0) by {
                if left.len() == 0 {
                    assert(rows_in(left).len() == 0);
                }
            }
            assert forall|i: int| 0 <= i < left.len() implies (#[trigger] left[i]).len() > 0 by {
                assert(left[i] == pages[i + 1]);
            }
            let after = SiteScan { offset: read.len() as u64, sole: None };
            lemma_resolution(read, after, left, rows, legacy_site);
        }
    }
}

} // verus!
