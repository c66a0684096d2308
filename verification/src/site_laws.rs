//! What holds of one page of the scan for the configured site.

use vstd::prelude::*;
use vstd::string::*;

use crate::site::{
    begin_site, keep_site, refers_to, resolution, rows_in, site_outcome, Site, SiteOutcome,
    SiteScan, SiteStep,
};

verus! {

/// A call begins with the id that is kept, or at the first row of the catalog,
/// a hundred rows at a time.
pub proof fn law_calls_begin_with_the_kept_id(cached: Option<String>, step: SiteStep)
    requires
        call_ensures(begin_site, (cached,), step),
    ensures
        cached matches Some(id) ==> step == SiteStep::Found(id),
        cached is None ==> step is Fetch && step->Fetch_0.offset == 0 && step->Fetch_0.limit == 100,
{
}

/// What is kept is the id that was kept, or else the one a step found.
pub proof fn law_only_found_ids_are_kept(
    cached: Option<String>,
    step: &SiteStep,
    kept: Option<String>,
)
    requires
        call_ensures(keep_site, (cached, step), kept),
    ensures
        cached is Some ==> kept == cached,
        cached is None && step is Found ==> kept == Some(step->Found_0),
        cached is None && !(step is Found) ==> kept is None,
{
}

/// Whether a site is the configured one.
pub open spec fn is_configured(site: Site, legacy_site: Seq<char>) -> bool {
    site.internal_reference is Some && site.internal_reference->Some_0@ == legacy_site
}

/// A page resolves the site where one of its rows has the configured reference:
/// the first such row. Where none has, the last page resolves to the only site
/// of a catalog of one, and is refused otherwise; any other page goes on behind
/// its last row until the ceiling.
pub proof fn law_a_page_resolves_by_reference(
    scan: SiteScan,
    data: Seq<Site>,
    total: int,
    legacy_site: Seq<char>,
    k: int,
)
    requires
        0 <= k < data.len(),
        is_configured(data[k], legacy_site),
        forall|i: int| 0 <= i < k ==> !is_configured(#[trigger] data[i], legacy_site),
    ensures
        site_outcome(scan, data, total, legacy_site) == SiteOutcome::Found(data[k].id),
{
    let test = refers_to(legacy_site);
    crate::paging_laws::law_the_first_match_is_the_first(data, test);
    assert(test(data[k]));
    let row = crate::rows::first_where(data, test)->Some_0;
    let at = choose|at: int|
        {
            &&& 0 <= at < data.len()
            &&& #[trigger] data[at] == row
            &&& test(row)
            &&& forall|i: int| 0 <= i < at ==> !test(#[trigger] data[i])
        };
    if at < k {
        assert(!is_configured(data[at], legacy_site));
    } else if k < at {
        assert(!test(data[k]));
    }
}

/// What a page without the configured site comes to.
pub proof fn law_a_page_without_the_site_goes_on_or_ends(
    scan: SiteScan,
    data: Seq<Site>,
    total: int,
    legacy_site: Seq<char>,
)
    requires
        forall|i: int| 0 <= i < data.len() ==> !is_configured(#[trigger] data[i], legacy_site),
        scan.offset + data.len() <= u64::MAX,
    ensures
        ({
            let end = site_outcome(scan, data, total, legacy_site);
            let next = scan.offset + data.len();
            let last = data.len() == 0 || next >= total;
            &&& end is Next <==> !last && next < 10_000
            &&& end is Beyond <==> !last && next >= 10_000
            &&& end matches SiteOutcome::Next(after) ==> after.offset == next
            &&& last && scan.offset == 0 && total == 1 && data.len() == 1 ==> end
                == SiteOutcome::Found(data[0].id)
            &&& last && scan.sole is None && !(scan.offset == 0 && total == 1 && data.len() == 1)
                ==> end is Missing
            &&& last && scan.sole is Some && !(scan.offset == 0 && total == 1 && data.len() == 1)
                ==> end == SiteOutcome::Found(scan.sole->Some_0)
        }),
{
    let test = refers_to(legacy_site);
    crate::paging_laws::law_the_first_match_is_the_first(data, test);
    assert forall|i: int| 0 <= i < data.len() implies !test(#[trigger] data[i]) by {
        assert(!is_configured(data[i], legacy_site));
    }
}

/// A whole scan gives the id of a site of the catalog: one with the configured
/// reference, or the only one there is.
pub proof fn law_a_scan_answers_with_a_configured_or_only_site(
    pages: Seq<Seq<Site>>,
    legacy_site: Seq<char>,
)
    requires
        pages.len() > 0,
        rows_in(pages).len() <= u64::MAX,
        pages.len() == 1 || forall|i: int| 0 <= i < pages.len() ==> (#[trigger] pages[i]).len() > 0,
    ensures
        resolution(
            SiteScan { offset: 0, sole: None },
            pages,
            rows_in(pages).len() as int,
            legacy_site,
        ) matches SiteOutcome::Found(id) ==> exists|k: int|
            {
                &&& 0 <= k < rows_in(pages).len()
                &&& (#[trigger] rows_in(pages)[k]).id == id
                &&& is_configured(rows_in(pages)[k], legacy_site) || rows_in(pages).len() == 1
            },
{
    let rows = rows_in(pages);
    let test = refers_to(legacy_site);
    crate::site::law_whole_scan_resolves_the_site(pages, legacy_site);
    crate::paging_laws::law_the_first_match_is_the_first(rows, test);
    let named = crate::rows::first_where(rows, test);
    if named is Some {
        let row = named->Some_0;
        let at = choose|at: int|
            {
                &&& 0 <= at < rows.len()
                &&& #[trigger] rows[at] == row
                &&& test(row)
                &&& forall|i: int| 0 <= i < at ==> !test(#[trigger] rows[i])
            };
        assert(is_configured(rows[at], legacy_site));
    } else if rows.len() == 1 {
        assert(rows[0].id == rows[0].id);
    }
}

} // verus!
