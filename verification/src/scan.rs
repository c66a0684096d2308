//! Following a paginated collection to its end or to a ceiling.

use vstd::prelude::*;

verus! {

/// Ceiling on device inventory rows scanned per call.
pub const DEVICE_INVENTORY_CEILING: u64 = 1000;

/// Rows asked for per page of the device inventory.
pub const DEVICE_PAGE_LIMIT: u32 = 100;

/// Ceiling on client rows scanned to resolve one hardware address to the
/// controller's own client id.
pub const CLIENT_SCAN_CEILING: u64 = 1000;

/// Ceiling on zones gathered per call.
pub const ZONE_SCAN_CEILING: u64 = 400;

/// Ceiling on policies gathered per call, sized so a ceiling-limited section
/// still fits the response budget.
pub const POLICY_SCAN_CEILING: u64 = 200;

/// Rows asked for per page of a section scan.
pub const SECTION_PAGE_LIMIT: u32 = 200;

/// The coordinates of one page.
#[derive(Debug, Clone, Copy, PartialEq, Eq, Structural)]
pub struct PageRequest {
    pub offset: u64,
    pub limit: u32,
}

/// Page coordinates for a bounded section scan.
pub fn page_at(offset: u64) -> (request: PageRequest)
    ensures
        request == (PageRequest { offset, limit: SECTION_PAGE_LIMIT }),
{
    PageRequest { offset, limit: SECTION_PAGE_LIMIT }
}

/// The smallest page there is, asked for only to learn a total.
pub fn count_probe() -> (request: PageRequest)
    ensures
        request == (PageRequest { offset: 0, limit: 1 }),
{
    PageRequest { offset: 0, limit: 1 }
}

/// A scan of one paginated collection: the rows gathered from `start` on, and
/// the offset of the next page.
pub struct Scan<T> {
    pub items: Vec<T>,
    pub start: u64,
    pub offset: u64,
    pub ceiling: u64,
}

impl<T> Scan<T> {
    /// Whether the next offset is where the gathered rows end.
    pub open spec fn wf(self) -> bool {
        self.offset == self.start + self.items@.len()
    }
}

/// What a scan does after a page.
#[derive(Debug, Clone, Copy, PartialEq, Eq, Structural)]
pub enum ScanStep {
    /// Fetch the page at the scan's offset.
    Continue,
    /// The collection ended.
    Complete,
    /// The ceiling cut the collection short.
    Truncated,
}

/// A scan that has gathered nothing yet.
pub fn begin_scan<T>(start: u64, ceiling: u64) -> (scan: Scan<T>)
    ensures
        scan.wf(),
        scan.items@ == Seq::<T>::empty(),
        scan.start == start,
        scan.offset == start,
        scan.ceiling == ceiling,
{
    Scan { items: Vec::new(), start, offset: start, ceiling }
}

/// What a scan does after a page of that many rows that left it at an offset,
/// where the collection was reported to hold `total` rows.
pub open spec fn scan_step(fetched: nat, start: int, offset: int, total: int, ceiling: int) -> ScanStep {
    if fetched == 0 || offset >= total {
        ScanStep::Complete
    } else if offset - start >= ceiling {
        ScanStep::Truncated
    } else {
        ScanStep::Continue
    }
}

/// Takes one fetched page into a scan. The ceiling is judged only after the
/// end of the collection, so a collection that fits exactly is complete.
pub fn gather_page<T>(scan: &mut Scan<T>, data: Vec<T>, total_count: u64) -> (step: ScanStep)
    requires
        old(scan).wf(),
        old(scan).offset + data@.len() <= u64::MAX,
    ensures
        final(scan).wf(),
        final(scan).items@ == old(scan).items@ + data@,
        final(scan).start == old(scan).start,
        final(scan).ceiling == old(scan).ceiling,
        final(scan).offset == old(scan).offset + data@.len(),
        step == scan_step(
            data@.len(),
            final(scan).start as int,
            final(scan).offset as int,
            total_count as int,
            final(scan).ceiling as int,
        ),
{
    let fetched: usize = data.len();
    let mut data = data;
    scan.items.append(&mut data);
    scan.offset = scan.offset + fetched as u64;
    if fetched == 0 || scan.offset >= total_count {
        return ScanStep::Complete;
    }
    if scan.offset - scan.start >= scan.ceiling {
        return ScanStep::Truncated;
    }
    ScanStep::Continue
}

/// A scan that goes on has gathered at least one more row and is still below
/// its ceiling, so it makes no more fetches than its ceiling; one that is cut
/// short has reached its ceiling before the reported end; one that is complete
/// reached the reported end or was answered with an empty page.
pub proof fn law_scan_is_bounded_and_honest(
    gathered: nat,
    fetched: nat,
    start: int,
    total: int,
    ceiling: int,
)
    requires
        start >= 0,
    ensures
        ({
            let rows = gathered + fetched;
            match scan_step(fetched, start, start + rows, total, ceiling) {
                ScanStep::Continue => gathered < rows < ceiling && start + rows < total,
                ScanStep::Truncated => rows >= ceiling && start + rows < total,
                ScanStep::Complete => fetched == 0 || start + rows >= total,
            }
        }),
{
}

} // verus!
