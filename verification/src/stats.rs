//! Bounded historical statistics.

use vstd::prelude::*;
use vstd::string::*;

use crate::clock::{start_of_window, window_start};
use crate::devices::Real;
use crate::error::{invalid_params, is_invalid_params, ToolError};
use crate::order::{by_number, number_key, rows_of, sort_keyed, stable_sort, Key, Rank};
use crate::paging::{page, take_page};
use crate::rows::convert;

verus! {

/// Hours a throughput report spans where the caller does not say.
pub const DEFAULT_WAN_REPORT_HOURS: u32 = 24;

/// Most hours a throughput report may span.
pub const MAXIMUM_WAN_REPORT_HOURS: u32 = 168;

/// Applications a report lists where the caller does not say.
pub const DEFAULT_TOP_APPLICATIONS: u16 = 10;

/// Most applications a report may list.
pub const MAXIMUM_TOP_APPLICATIONS: u16 = 50;

/// Which report to run.
#[derive(Debug, Clone, Copy, PartialEq, Eq, Structural)]
pub enum StatsReport {
    WanHourly,
    DpiApplications,
}

/// What a statistics query asks for.
pub struct StatsQueryInput {
    pub report: StatsReport,
    pub hours: Option<u32>,
    pub top: Option<u16>,
}

/// One hour of throughput as the controller reports it.
pub struct WanSample {
    pub time: Option<u64>,
    pub wan_tx_bytes: Option<Real>,
    pub wan_rx_bytes: Option<Real>,
}

/// The volume of one application as the controller reports it.
pub struct DpiRow {
    pub app: Option<u32>,
    pub cat: Option<u32>,
    pub tx_bytes: Option<u64>,
    pub rx_bytes: Option<u64>,
}

/// One hour of throughput.
#[derive(Debug, Clone, Copy, PartialEq, Eq, Structural)]
pub struct WanSampleRow {
    pub time: Option<u64>,
    pub tx_bytes: Option<Real>,
    pub rx_bytes: Option<Real>,
}

/// The volume of one application.
#[derive(Debug, Clone, Copy, PartialEq, Eq, Structural)]
pub struct TopApplicationRow {
    pub application_id: Option<u32>,
    pub category_id: Option<u32>,
    pub tx_bytes: u64,
    pub rx_bytes: u64,
}

/// The result of a statistics query.
pub struct StatsQueryOutput {
    pub report: &'static str,
    pub wan_hourly: Option<Vec<WanSampleRow>>,
    pub top_applications: Option<Vec<TopApplicationRow>>,
}

/// What a query reads.
#[derive(Debug, Clone, Copy, PartialEq, Eq, Structural)]
pub enum StatsPlan {
    /// Hourly throughput from `start` to `end`.
    WanHourly { start: u64, end: u64 },
    /// The volume of every application, of which `top` are listed.
    DpiApplications { top: u16 },
}

/// The hours of a throughput report.
pub open spec fn report_hours(input: StatsQueryInput) -> u32 {
    match input.hours {
        Some(hours) => hours,
        None => DEFAULT_WAN_REPORT_HOURS,
    }
}

/// How many applications a report lists.
pub open spec fn report_top(input: StatsQueryInput) -> u16 {
    match input.top {
        Some(top) => top,
        None => DEFAULT_TOP_APPLICATIONS,
    }
}

/// The refusal of a query, where it is refused.
pub open spec fn stats_refusal(input: StatsQueryInput) -> Option<Seq<char>> {
    match input.report {
        StatsReport::WanHourly => if input.top is Some {
            Some("top applies only to the dpiApplications report"@)
        } else if !(1 <= report_hours(input) <= MAXIMUM_WAN_REPORT_HOURS) {
            Some("hours must be between 1 and 168"@)
        } else {
            None
        },
        StatsReport::DpiApplications => if input.hours is Some {
            Some("hours applies only to the wanHourly report"@)
        } else if !(1 <= report_top(input) <= MAXIMUM_TOP_APPLICATIONS) {
            Some("top must be between 1 and 50"@)
        } else {
            None
        },
    }
}

/// What a query reads, at the time it is made, or its refusal.
pub fn plan_stats(input: &StatsQueryInput, now_ms: u64) -> (result: Result<StatsPlan, ToolError>)
    ensures
        result is Err <==> stats_refusal(*input) is Some,
        result matches Err(error) ==> is_invalid_params(error, stats_refusal(*input)->Some_0),
        result matches Ok(plan) ==> match input.report {
            StatsReport::WanHourly => plan is WanHourly && plan->start == window_start(
                now_ms as int,
                report_hours(*input) as int,
            ) && plan->end == now_ms,
            StatsReport::DpiApplications => plan == (StatsPlan::DpiApplications {
                top: report_top(*input),
            }),
        },
{
    match input.report {
        StatsReport::WanHourly => {
            if input.top.is_some() {
                return Err(invalid_params("top applies only to the dpiApplications report"));
            }
            let hours: u32 = match input.hours {
                Some(hours) => hours,
                None => DEFAULT_WAN_REPORT_HOURS,
            };
            if hours < 1 || hours > MAXIMUM_WAN_REPORT_HOURS {
                return Err(invalid_params("hours must be between 1 and 168"));
            }
            Ok(StatsPlan::WanHourly { start: start_of_window(now_ms, hours), end: now_ms })
        },
        StatsReport::DpiApplications => {
            if input.hours.is_some() {
                return Err(invalid_params("hours applies only to the wanHourly report"));
            }
            let top: u16 = match input.top {
                Some(top) => top,
                None => DEFAULT_TOP_APPLICATIONS,
            };
            if top < 1 || top > MAXIMUM_TOP_APPLICATIONS {
                return Err(invalid_params("top must be between 1 and 50"));
            }
            Ok(StatsPlan::DpiApplications { top })
        },
    }
}

/// The row a sample is shown as.
pub open spec fn sample_row(sample: WanSample) -> WanSampleRow {
    WanSampleRow {
        time: sample.time,
        tx_bytes: sample.wan_tx_bytes,
        rx_bytes: sample.wan_rx_bytes,
    }
}

/// The throughput report.
pub fn wan_report(samples: Vec<WanSample>) -> (output: StatsQueryOutput)
    ensures
        output.report == "wanHourly",
        output.wan_hourly is Some,
        output.wan_hourly->Some_0@ == samples@.map_values(|sample: WanSample| sample_row(sample)),
        output.top_applications is None,
{
    let ghost all = samples@;
    let conversion = |sample: WanSample| -> (row: WanSampleRow)
        ensures
            row == sample_row(sample)
    {
        WanSampleRow {
            time: sample.time,
            tx_bytes: sample.wan_tx_bytes,
            rx_bytes: sample.wan_rx_bytes,
        }
    };
    let rows = convert(samples, conversion);
    assert(rows@ =~= all.map_values(|sample: WanSample| sample_row(sample)));
    StatsQueryOutput { report: "wanHourly", wan_hourly: Some(rows), top_applications: None }
}

/// A byte count; an absent one is zero.
pub open spec fn bytes_or_zero(bytes: Option<u64>) -> u64 {
    match bytes {
        Some(count) => count,
        None => 0,
    }
}

/// The row an application is shown as.
pub open spec fn application_row(row: DpiRow) -> TopApplicationRow {
    TopApplicationRow {
        application_id: row.app,
        category_id: row.cat,
        tx_bytes: bytes_or_zero(row.tx_bytes),
        rx_bytes: bytes_or_zero(row.rx_bytes),
    }
}

/// The volume applications are ordered by, saturating.
pub open spec fn volume(row: TopApplicationRow) -> int {
    if row.tx_bytes + row.rx_bytes <= u64::MAX {
        row.tx_bytes + row.rx_bytes
    } else {
        u64::MAX as int
    }
}

/// The order of applications: the largest volume first.
pub open spec fn volume_order() -> spec_fn(TopApplicationRow) -> Rank {
    |row: TopApplicationRow| by_number(-volume(row))
}

/// The largest applications by volume, largest first.
pub open spec fn top_applications(rows: Seq<DpiRow>, top: int) -> Seq<TopApplicationRow> {
    page(
        stable_sort(rows.map_values(|row: DpiRow| application_row(row)), volume_order()),
        0,
        top,
    )
}

/// The application report.
pub fn application_report(rows: Vec<DpiRow>, top: u16) -> (output: StatsQueryOutput)
    ensures
        output.report == "dpiApplications",
        output.wan_hourly is None,
        output.top_applications is Some,
        output.top_applications->Some_0@ == top_applications(rows@, top as int),
{
    let ghost all = rows@;
    let keying = |row: DpiRow| -> (pair: (Key, TopApplicationRow))
        ensures
            pair.1 == application_row(row) && pair.0@ == by_number(-volume(pair.1))
    {
        let tx_bytes: u64 = match row.tx_bytes {
            Some(count) => count,
            None => 0,
        };
        let rx_bytes: u64 = match row.rx_bytes {
            Some(count) => count,
            None => 0,
        };
        let shown = TopApplicationRow {
            application_id: row.app,
            category_id: row.cat,
            tx_bytes,
            rx_bytes,
        };
        let size: u64 = tx_bytes.saturating_add(rx_bytes);
        (number_key(0 - size as i128), shown)
    };
    let keyed = convert(rows, keying);
    assert(rows_of(keyed@) =~= all.map_values(|row: DpiRow| application_row(row)));
    let sorted = sort_keyed(keyed, Ghost(volume_order()));
    let shown = take_page(sorted, 0, top as usize);
    StatsQueryOutput {
        report: "dpiApplications",
        wan_hourly: None,
        top_applications: Some(shown),
    }
}

/// The applications shown stand largest first, and none that is left out is
/// larger than one that is shown.
pub proof fn law_top_applications_are_the_largest(rows: Seq<DpiRow>, top: int, i: int, j: int)
    requires
        0 <= top,
        0 <= i < top_applications(rows, top).len(),
        i < j < rows.len(),
    ensures
        ({
            let ranked = stable_sort(
                rows.map_values(|row: DpiRow| application_row(row)),
                volume_order(),
            );
            &&& ranked.to_multiset() == rows.map_values(
                |row: DpiRow| application_row(row),
            ).to_multiset()
            &&& ranked.len() == rows.len()
            &&& top_applications(rows, top)[i] == ranked[i]
            &&& volume(ranked[j]) <= volume(ranked[i])
        }),
        top_applications(rows, top).len() <= top,
{
    let shown = rows.map_values(|row: DpiRow| application_row(row));
    let ranked = stable_sort(shown, volume_order());
    crate::order::law_sorting_orders_and_keeps_the_rows(shown, volume_order());
    assert(!crate::order::before(volume_order()(ranked[j]), volume_order()(ranked[i])));
}

} // verus!
