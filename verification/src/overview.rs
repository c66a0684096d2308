//! One bounded controller snapshot.

use vstd::prelude::*;
use vstd::string::*;

use crate::rows::{count, flag_if, shown_if};

verus! {

/// Ceiling on legacy alarm rows counted for the overview.
pub const ALARM_COUNT_LIMIT: u32 = 1000;

/// One subsystem as the controller reports its health.
pub struct HealthRow {
    pub subsystem: Option<String>,
    pub status: Option<String>,
}

/// A controller alarm.
pub struct LegacyAlarm {
    pub key: Option<String>,
    pub time: Option<u64>,
    pub msg: Option<String>,
    pub archived: Option<bool>,
}

/// One subsystem row of controller-reported health.
pub struct SubsystemHealth {
    pub subsystem: String,
    pub status: String,
}

/// One bounded controller snapshot.
pub struct NetworkOverviewOutput {
    pub controller: String,
    pub application_version: String,
    pub subsystems: Vec<SubsystemHealth>,
    pub active_alarms: u64,
    pub active_alarms_saturated: Option<bool>,
    pub devices: u64,
    pub clients: u64,
}

/// The name and status a health row is shown with: an unnamed row is not
/// shown, and a status the controller omits is unknown.
pub open spec fn health_entry(row: HealthRow) -> Option<(Seq<char>, Seq<char>)> {
    match row.subsystem {
        Some(subsystem) => Some(
            (
                subsystem@,
                match row.status {
                    Some(status) => status@,
                    None => "unknown"@,
                },
            ),
        ),
        None => None,
    }
}

/// The names and statuses of a list of health rows.
pub open spec fn health_entries(rows: Seq<HealthRow>) -> Seq<(Seq<char>, Seq<char>)> {
    rows.filter_map(|row: HealthRow| health_entry(row))
}

/// The names and statuses of a list of shown rows.
pub open spec fn shown_health(rows: Seq<SubsystemHealth>) -> Seq<(Seq<char>, Seq<char>)> {
    rows.map_values(|row: SubsystemHealth| (row.subsystem@, row.status@))
}

/// The named subsystems with their status.
pub fn subsystem_health(rows: Vec<HealthRow>) -> (shown: Vec<SubsystemHealth>)
    ensures
        shown_health(shown@) == health_entries(rows@),
{
    let ghost all = rows@;
    let mut shown: Vec<SubsystemHealth> = Vec::new();
    assert(shown_health(shown@) =~= health_entries(all.take(0)));
    for row in it: rows
        invariant
            it.seq() == all,
            shown_health(shown@) == health_entries(all.take(it.index() as int)),
    {
        let ghost done = it.index() as int;
        let ghost prior = shown_health(shown@);
        assert(all.take(done + 1).drop_last() =~= all.take(done));
        assert(all.take(done + 1).last() == row);
        if let Some(subsystem) = row.subsystem {
            let status = match row.status {
                Some(status) => status,
                None => "unknown".to_owned(),
            };
            let entry = SubsystemHealth { subsystem, status };
            let ghost added = (entry.subsystem@, entry.status@);
            shown.push(entry);
            assert(shown_health(shown@) =~= prior + seq![added]);
        }
    }
    assert(all.take(all.len() as int) =~= all);
    shown
}

/// Whether an alarm is active: it was not archived.
pub open spec fn is_active(alarm: LegacyAlarm) -> bool {
    alarm.archived != Some(true)
}

/// Whether an alarm is active.
pub fn alarm_is_active(alarm: &LegacyAlarm) -> (result: bool)
    ensures
        result == is_active(*alarm),
{
    match alarm.archived {
        Some(archived) => !archived,
        None => true,
    }
}

/// The test for an active alarm.
pub open spec fn active() -> spec_fn(LegacyAlarm) -> bool {
    |alarm: LegacyAlarm| is_active(alarm)
}

/// One controller snapshot. A full page of alarms makes the count a floor,
/// and the result says so.
pub fn network_overview(
    controller: &str,
    application_version: String,
    health: Vec<HealthRow>,
    alarms: Vec<LegacyAlarm>,
    devices: u64,
    clients: u64,
) -> (output: NetworkOverviewOutput)
    ensures
        output.controller@ == controller@,
        output.application_version == application_version,
        shown_health(output.subsystems@) == health_entries(health@),
        output.active_alarms == alarms@.filter(active()).len(),
        output.active_alarms_saturated == shown_if(alarms@.len() >= ALARM_COUNT_LIMIT),
        output.devices == devices,
        output.clients == clients,
{
    let saturated = alarms.len() >= ALARM_COUNT_LIMIT as usize;
    let test = |alarm: &LegacyAlarm| -> (answer: bool)
        ensures
            answer == (alarm.archived != Some(true))
    {
        match alarm.archived {
            Some(archived) => !archived,
            None => true,
        }
    };
    let active_alarms: usize = count(&alarms, test, Ghost(active()));
    NetworkOverviewOutput {
        controller: controller.to_owned(),
        application_version,
        subsystems: subsystem_health(health),
        active_alarms: active_alarms as u64,
        active_alarms_saturated: flag_if(saturated),
        devices,
        clients,
    }
}

} // verus!
