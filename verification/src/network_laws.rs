//! What holds of event searches, reports, the overview and the network reads.

use vstd::prelude::*;
use vstd::string::*;

use crate::clients::LegacyEvent;
use crate::display::mac_form;
use crate::error::{ErrorKind, ToolError};
use crate::events::{
    alarm_sources, check_events_search, event_sources, events_search, found_events, reads_alarms,
    reads_events, show_source, source_filter, source_order, window_hours, EventKind, EventRow,
    EventSource, EventsSearchInput, EventsSearchOutput,
};
use crate::networks::{
    check_disclosure, network_views, networks_read, wants_wlans, wlan_view, IdentityPrincipal,
    NetworkConf, NetworkView, NetworksReadInput, NetworksReadOutput, NetworksSection, WlanConf,
    WlanView,
};
use crate::order::{law_sorting_orders_and_keeps_the_rows, lemma_sorted_matches, stable_sort};
use crate::overview::{
    alarm_is_active, network_overview, subsystem_health, HealthRow, LegacyAlarm,
    NetworkOverviewOutput, SubsystemHealth,
};
use crate::paging::filter_text;
use crate::stats::{
    application_report, plan_stats, volume_order, wan_report, DpiRow, StatsPlan, StatsQueryInput,
    StatsQueryOutput, StatsReport, TopApplicationRow, WanSample,
};
use crate::text::{byte_len, contains, lowercase, opt_string, texts, trimmed};
use crate::text_laws::is_blank;

verus! {

// ---------------------------------------------------------------------------
// Events
// ---------------------------------------------------------------------------

/// An event search is made exactly where its page, filters and window are in
/// bounds; it looks back 24 hours where nothing is said.
pub proof fn law_event_searches_are_checked(
    input: &EventsSearchInput,
    result: Result<u32, ToolError>,
)
    requires
        call_ensures(check_events_search, (input,), result),
    ensures
        ({
            let hours = if input.last_hours is Some {
                input.last_hours->Some_0
            } else {
                24
            };
            &&& result is Ok <==> {
                &&& 1 <= input.limit <= 200
                &&& input.offset <= 10_000
                &&& 1 <= hours <= 168
                &&& input.category matches Some(text) ==> !is_blank(text@) && byte_len(
                    trimmed(text@),
                ) <= 128
                &&& input.client matches Some(text) ==> !is_blank(text@) && byte_len(trimmed(text@))
                    <= 128
            }
            &&& result is Ok ==> result->Ok_0 == hours
            &&& result is Err ==> result->Err_0.kind == ErrorKind::InvalidParams
        }),
{
    if let Some(text) = input.category {
        crate::text_laws::law_trimming_takes_white_space_off_the_ends(text@);
    }
    if let Some(text) = input.client {
        crate::text_laws::law_trimming_takes_white_space_off_the_ends(text@);
    }
}

/// Events are read unless only alarms are asked for, and alarms unless only
/// events are.
pub proof fn law_kinds_are_read_as_asked(kind: EventKind, events: bool, alarms: bool)
    requires
        call_ensures(reads_events, (kind,), events),
        call_ensures(reads_alarms, (kind,), alarms),
    ensures
        kind == EventKind::All ==> events && alarms,
        kind == EventKind::Events ==> events && !alarms,
        kind == EventKind::Alarms ==> !events && alarms,
{
}

/// A search finds a controller event exactly where events are asked for, it
/// has a time in the window that ends now, its key or its subsystem holds the
/// category, and its user is the client asked for; each as often as it was
/// read.
pub proof fn law_event_search_finds_events_as_asked(
    events: Seq<LegacyEvent>,
    alarms: Seq<LegacyAlarm>,
    now: u64,
    input: EventsSearchInput,
    event: LegacyEvent,
)
    ensures
        ({
            let hours = if input.last_hours is Some {
                input.last_hours->Some_0
            } else {
                24
            };
            let recent = event.time is Some && event.time->Some_0 <= now && event.time->Some_0
                + hours * 3_600_000 >= now;
            let by_category = input.category matches Some(text) ==> {
                let needle = lowercase(trimmed(text@));
                ||| event.key is Some && contains(lowercase(event.key->Some_0@), needle)
                ||| event.subsystem is Some && contains(lowercase(event.subsystem->Some_0@), needle)
            };
            let by_client = input.client matches Some(text) ==> event.user is Some && mac_form(
                event.user->Some_0@,
            ) == lowercase(trimmed(text@));
            found_events(events, alarms, now as int, input).to_multiset().count(
                EventSource::Event(event),
            ) == if input.kind != EventKind::Alarms && recent && by_category && by_client {
                events.to_multiset().count(event)
            } else {
                0
            }
        }),
{
    let source = EventSource::Event(event);
    let all = event_sources(events) + alarm_sources(alarms);
    lemma_found_sources(events, alarms, now as int, input, source);
    lemma_event_count(events, alarms, event);
}

/// A search finds an alarm exactly where alarms are asked for, it is not
/// archived, it has a time in the window that ends now, its key holds the
/// category, and no client is asked for; each as often as it was read.
pub proof fn law_event_search_finds_alarms_as_asked(
    events: Seq<LegacyEvent>,
    alarms: Seq<LegacyAlarm>,
    now: u64,
    input: EventsSearchInput,
    alarm: LegacyAlarm,
)
    ensures
        ({
            let hours = if input.last_hours is Some {
                input.last_hours->Some_0
            } else {
                24
            };
            let recent = alarm.time is Some && alarm.time->Some_0 <= now && alarm.time->Some_0
                + hours * 3_600_000 >= now;
            let by_category = input.category matches Some(text) ==> alarm.key is Some && contains(
                lowercase(alarm.key->Some_0@),
                lowercase(trimmed(text@)),
            );
            found_events(events, alarms, now as int, input).to_multiset().count(
                EventSource::Alarm(alarm),
            ) == if input.kind != EventKind::Events && alarm.archived != Some(true) && recent
                && by_category && input.client is None {
                alarms.to_multiset().count(alarm)
            } else {
                0
            }
        }),
{
    let source = EventSource::Alarm(alarm);
    lemma_found_sources(events, alarms, now as int, input, source);
    lemma_alarm_count(events, alarms, alarm);
}

proof fn lemma_found_sources(
    events: Seq<LegacyEvent>,
    alarms: Seq<LegacyAlarm>,
    now: int,
    input: EventsSearchInput,
    source: EventSource,
)
    ensures
        ({
            let all = event_sources(events) + alarm_sources(alarms);
            let test = source_filter(
                input.kind,
                crate::clock::window_start(now, window_hours(input) as int),
                now,
                filter_text(opt_string(input.category)),
                filter_text(opt_string(input.client)),
            );
            &&& found_events(events, alarms, now, input).to_multiset().count(source) == if test(
                source,
            ) {
                all.to_multiset().count(source)
            } else {
                0
            }
            &&& crate::order::is_ordered(found_events(events, alarms, now, input), source_order())
        }),
{
    let all = event_sources(events) + alarm_sources(alarms);
    let test = source_filter(
        input.kind,
        crate::clock::window_start(now, window_hours(input) as int),
        now,
        filter_text(opt_string(input.category)),
        filter_text(opt_string(input.client)),
    );
    lemma_sorted_matches(all, test, source_order(), source);
}

proof fn lemma_event_count(events: Seq<LegacyEvent>, alarms: Seq<LegacyAlarm>, event: LegacyEvent)
    ensures
        (event_sources(events) + alarm_sources(alarms)).to_multiset().count(
            EventSource::Event(event),
        ) == events.to_multiset().count(event),
    decreases alarms.len(), events.len(),
{
    broadcast use vstd::seq_lib::group_to_multiset_ensures;

    let all = event_sources(events) + alarm_sources(alarms);
    if alarms.len() > 0 {
        let rest = alarms.drop_last();
        lemma_event_count(events, rest, event);
        assert(all =~= (event_sources(events) + alarm_sources(rest)).push(
            EventSource::Alarm(alarms.last()),
        ));
    } else if events.len() > 0 {
        let rest = events.drop_last();
        lemma_event_count(rest, alarms, event);
        assert(all =~= (event_sources(rest) + alarm_sources(alarms)).push(
            EventSource::Event(events.last()),
        ));
        assert(events =~= rest.push(events.last()));
    } else {
        assert(all =~= Seq::empty());
        assert(events =~= Seq::empty());
    }
}

proof fn lemma_alarm_count(events: Seq<LegacyEvent>, alarms: Seq<LegacyAlarm>, alarm: LegacyAlarm)
    ensures
        (event_sources(events) + alarm_sources(alarms)).to_multiset().count(
            EventSource::Alarm(alarm),
        ) == alarms.to_multiset().count(alarm),
    decreases alarms.len(), events.len(),
{
    broadcast use vstd::seq_lib::group_to_multiset_ensures;

    let all = event_sources(events) + alarm_sources(alarms);
    if alarms.len() > 0 {
        let rest = alarms.drop_last();
        lemma_alarm_count(events, rest, alarm);
        assert(all =~= (event_sources(events) + alarm_sources(rest)).push(
            EventSource::Alarm(alarms.last()),
        ));
        assert(alarms =~= rest.push(alarms.last()));
    } else if events.len() > 0 {
        let rest = events.drop_last();
        lemma_alarm_count(rest, alarms, alarm);
        assert(all =~= (event_sources(rest) + alarm_sources(alarms)).push(
            EventSource::Event(events.last()),
        ));
    } else {
        assert(all =~= Seq::empty());
        assert(alarms =~= Seq::empty());
    }
}

/// A row shows a controller event with its own time, key, subsystem and user,
/// and an alarm with its own time and key; a message is bounded.
pub proof fn law_event_rows_show_their_source(source: EventSource, row: EventRow)
    requires
        call_ensures(show_source, (source,), row),
    ensures
        source matches EventSource::Event(event) ==> {
            &&& row.kind@ == "event"@
            &&& row.time == event.time
            &&& row.key == event.key
            &&& row.subsystem == event.subsystem
            &&& row.client_mac == event.user
            &&& row.message is Some <==> event.msg is Some
            &&& event.msg is Some && event.msg->Some_0@.len() <= 256 ==> row.message->Some_0@
                == event.msg->Some_0@
            &&& event.msg is Some && event.msg->Some_0@.len() > 256 ==> row.message->Some_0@
                == event.msg->Some_0@.take(255).push('\u{2026}')
        },
        source matches EventSource::Alarm(alarm) ==> {
            &&& row.kind@ == "alarm"@
            &&& row.time == alarm.time
            &&& row.key == alarm.key
            &&& row.subsystem is None
            &&& row.client_mac is None
            &&& row.message is Some <==> alarm.msg is Some
            &&& alarm.msg is Some && alarm.msg->Some_0@.len() <= 256 ==> row.message->Some_0@
                == alarm.msg->Some_0@
            &&& alarm.msg is Some && alarm.msg->Some_0@.len() > 256 ==> row.message->Some_0@
                == alarm.msg->Some_0@.take(255).push('\u{2026}')
        },
{
}

/// The page of an event search shows the found rows from its offset on, the
/// newest first, its total counts them all, the next page begins behind its
/// last row, and a full page of a kind that was read is called truncated.
pub proof fn law_event_page_shows_what_was_found(
    events: Vec<LegacyEvent>,
    alarms: Vec<LegacyAlarm>,
    now: u64,
    input: &EventsSearchInput,
    result: Result<EventsSearchOutput, ToolError>,
    checked: Result<u32, ToolError>,
)
    requires
        call_ensures(events_search, (events, alarms, now, input), result),
        call_ensures(check_events_search, (input,), checked),
    ensures
        result is Ok <==> checked is Ok,
        result matches Err(error) ==> error.kind == ErrorKind::InvalidParams,
        result matches Ok(output) ==> {
            let found = found_events(events@, alarms@, now as int, *input);
            let rows = output.rows@;
            &&& output.total_matches == found.len()
            &&& rows.len() <= input.limit
            &&& rows.len() < input.limit ==> input.offset + rows.len() >= found.len()
            &&& forall|i: int|
                #![trigger rows[i]]
                0 <= i < rows.len() ==> {
                    &&& rows[i].kind@ == "event"@ <==> found[input.offset + i] is Event
                    &&& found[input.offset + i] matches EventSource::Event(event) ==> rows[i].time
                        == event.time && rows[i].key == event.key && rows[i].subsystem
                        == event.subsystem && rows[i].client_mac == event.user
                    &&& found[input.offset + i] matches EventSource::Alarm(alarm) ==> rows[i].time
                        == alarm.time && rows[i].key == alarm.key && rows[i].subsystem is None
                        && rows[i].client_mac is None
                }
            &&& forall|i: int, j: int|
                0 <= i < j < rows.len() ==> (#[trigger] rows[i]).time is Some && (
                #[trigger] rows[j]).time is Some && rows[i].time->Some_0 >= rows[j].time->Some_0
            &&& output.next_offset is Some <==> input.offset + rows.len() < found.len()
                && input.offset + rows.len() <= 10_000
            &&& output.next_offset matches Some(next) ==> next == input.offset + rows.len()
            &&& output.fetch_window_truncated == if (input.kind != EventKind::Alarms
                && events@.len() >= 1000) || (input.kind != EventKind::Events && alarms@.len()
                >= 1000) {
                Some(true)
            } else {
                None
            }
        },
{
    broadcast use vstd::seq_lib::group_to_multiset_ensures;

    if result is Ok {
        reveal_strlit("event");
        reveal_strlit("alarm");
        assert("event"@[0] == 'e' && "alarm"@[0] == 'a');
        let found = found_events(events@, alarms@, now as int, *input);
        let rows = result->Ok_0.rows@;
        let shown = crate::paging::page(found, input.offset as int, input.limit as int);
        assert forall|i: int| 0 <= i < rows.len() implies crate::events::shows_source(
            #[trigger] rows[i],
            found[input.offset + i],
        ) by {
            assert(shown[i] == found[input.offset + i]);
            assert(crate::events::shows_source(rows[i], shown[i]));
        }
        assert forall|i: int, j: int| 0 <= i < j < rows.len() implies (
        #[trigger] rows[i]).time is Some && (#[trigger] rows[j]).time is Some
            && rows[i].time->Some_0 >= rows[j].time->Some_0 by {
            let a = found[input.offset + i];
            let b = found[input.offset + j];
            lemma_found_sources(events@, alarms@, now as int, *input, a);
            lemma_found_sources(events@, alarms@, now as int, *input, b);
            assert(found.contains(a) && found.contains(b));
            assert(found.to_multiset().count(a) > 0 && found.to_multiset().count(b) > 0);
            assert(!crate::order::before(source_order()(b), source_order()(a)));
            assert(crate::events::shows_source(rows[i], a));
            assert(crate::events::shows_source(rows[j], b));
        }
    }
}

// ---------------------------------------------------------------------------
// Overview
// ---------------------------------------------------------------------------

/// An alarm is active unless it is archived.
pub proof fn law_alarms_are_active_until_archived(alarm: &LegacyAlarm, active: bool)
    requires
        call_ensures(alarm_is_active, (alarm,), active),
    ensures
        active <==> alarm.archived is None || alarm.archived == Some(false),
{
    if let Some(archived) = alarm.archived {
        assert(alarm.archived == Some(archived));
    }
}

/// Each subsystem that is named is shown, in order, with its status, and one
/// without a status as unknown.
pub proof fn law_subsystems_are_shown_with_their_status(
    rows: Vec<HealthRow>,
    shown: Vec<SubsystemHealth>,
)
    requires
        call_ensures(subsystem_health, (rows,), shown),
    ensures
        ({
            let named = rows@.filter(|row: HealthRow| row.subsystem is Some);
            &&& shown@.len() == named.len()
            &&& forall|i: int|
                #![trigger shown@[i]]
                0 <= i < shown@.len() ==> {
                    &&& shown@[i].subsystem@ == named[i].subsystem->Some_0@
                    &&& named[i].status is Some ==> shown@[i].status@ == named[i].status->Some_0@
                    &&& named[i].status is None ==> shown@[i].status@ == "unknown"@
                }
        }),
{
    lemma_health(rows@);
    let pairs = crate::overview::shown_health(shown@);
    assert(pairs.len() == shown@.len());
    assert forall|i: int| #![trigger shown@[i]] 0 <= i < shown@.len() implies pairs[i] == (
        shown@[i].subsystem@,
        shown@[i].status@,
    ) by {}
}

proof fn lemma_health(rows: Seq<HealthRow>)
    ensures
        ({
            let named = rows.filter(|row: HealthRow| row.subsystem is Some);
            let entries = crate::overview::health_entries(rows);
            &&& entries.len() == named.len()
            &&& forall|i: int|
                #![trigger entries[i]]
                0 <= i < entries.len() ==> {
                    &&& entries[i].0 == named[i].subsystem->Some_0@
                    &&& named[i].status is Some ==> entries[i].1 == named[i].status->Some_0@
                    &&& named[i].status is None ==> entries[i].1 == "unknown"@
                }
        }),
    decreases rows.len(),
{
    reveal(Seq::filter);
    if rows.len() > 0 {
        let rest = rows.drop_last();
        lemma_health(rest);
        let entries = crate::overview::health_entries(rows);
        let prior = crate::overview::health_entries(rest);
        let named = rows.filter(|row: HealthRow| row.subsystem is Some);
        let before = rest.filter(|row: HealthRow| row.subsystem is Some);
        assert forall|i: int| #![trigger entries[i]] 0 <= i < entries.len() implies {
            &&& entries[i].0 == named[i].subsystem->Some_0@
            &&& named[i].status is Some ==> entries[i].1 == named[i].status->Some_0@
            &&& named[i].status is None ==> entries[i].1 == "unknown"@
        } by {
            if i < prior.len() {
                assert(entries[i] == prior[i]);
                assert(named[i] == before[i]);
            }
        }
    }
}

/// The overview names the controller and its version, shows the subsystems as
/// they are shown alone, counts the alarms that are not archived, says where
/// that count may be short, and states the devices and the clients.
pub proof fn law_overview_states_what_was_read(
    controller: &str,
    application_version: String,
    health: Vec<HealthRow>,
    alarms: Vec<LegacyAlarm>,
    devices: u64,
    clients: u64,
    output: NetworkOverviewOutput,
    alone: Vec<SubsystemHealth>,
)
    requires
        call_ensures(
            network_overview,
            (controller, application_version, health, alarms, devices, clients),
            output,
        ),
        call_ensures(subsystem_health, (health,), alone),
    ensures
        output.controller@ == controller@,
        output.application_version == application_version,
        output.devices == devices,
        output.clients == clients,
        output.active_alarms == alarms@.filter(
            |alarm: LegacyAlarm| alarm.archived != Some(true),
        ).len(),
        output.active_alarms_saturated == if alarms@.len() >= 1000 {
            Some(true)
        } else {
            None
        },
        output.subsystems@.len() == alone@.len(),
        forall|i: int|
            #![trigger output.subsystems@[i]]
            0 <= i < alone@.len() ==> output.subsystems@[i].subsystem@ == alone@[i].subsystem@
                && output.subsystems@[i].status@ == alone@[i].status@,
{
    assert(crate::overview::active() =~= (|alarm: LegacyAlarm| alarm.archived != Some(true)));
    let a = crate::overview::shown_health(output.subsystems@);
    let b = crate::overview::shown_health(alone@);
    assert(a == b);
    assert(a.len() == output.subsystems@.len() && b.len() == alone@.len());
    assert forall|i: int| #![trigger output.subsystems@[i]] 0 <= i < alone@.len() implies
        output.subsystems@[i].subsystem@ == alone@[i].subsystem@
        && output.subsystems@[i].status@ == alone@[i].status@ by {
        assert(a[i] == b[i]);
    }
}

// ---------------------------------------------------------------------------
// Reports
// ---------------------------------------------------------------------------

/// A throughput report covers the hours asked for, up to 168 and 24 where
/// nothing is said, and ends now; an application report lists as many as are
/// asked for, up to 50 and 10 where nothing is said. Each refuses what only
/// the other takes.
pub proof fn law_reports_are_planned_as_asked(
    input: &StatsQueryInput,
    now: u64,
    result: Result<StatsPlan, ToolError>,
)
    requires
        call_ensures(plan_stats, (input, now), result),
    ensures
        result matches Err(error) ==> error.kind == ErrorKind::InvalidParams,
        input.report == StatsReport::WanHourly ==> {
            let hours = if input.hours is Some {
                input.hours->Some_0
            } else {
                24
            };
            &&& result is Ok <==> input.top is None && 1 <= hours <= 168
            &&& result matches Ok(plan) ==> {
                &&& plan is WanHourly
                &&& plan->end == now
                &&& plan->start == if now >= hours * 3_600_000 {
                    now - hours * 3_600_000
                } else {
                    0
                }
            }
        },
        input.report == StatsReport::DpiApplications ==> {
            let top = if input.top is Some {
                input.top->Some_0
            } else {
                10
            };
            &&& result is Ok <==> input.hours is None && 1 <= top <= 50
            &&& result matches Ok(plan) ==> plan is DpiApplications && plan->top == top
        },
{
}

/// A throughput report shows every sample in order, sent as sent and received
/// as received.
pub proof fn law_throughput_is_shown_as_sampled(samples: Vec<WanSample>, output: StatsQueryOutput)
    requires
        call_ensures(wan_report, (samples,), output),
    ensures
        output.report@ == "wanHourly"@,
        output.top_applications is None,
        output.wan_hourly is Some,
        output.wan_hourly->Some_0@.len() == samples@.len(),
        forall|i: int|
            #![trigger output.wan_hourly->Some_0@[i]]
            0 <= i < samples@.len() ==> {
                &&& output.wan_hourly->Some_0@[i].time == samples@[i].time
                &&& output.wan_hourly->Some_0@[i].tx_bytes == samples@[i].wan_tx_bytes
                &&& output.wan_hourly->Some_0@[i].rx_bytes == samples@[i].wan_rx_bytes
            },
{
}

/// Whether a row shows an application with its own ids and volumes, where an
/// unreported volume is zero.
pub open spec fn shows_application(row: TopApplicationRow, given: DpiRow) -> bool {
    &&& row.application_id == given.app
    &&& row.category_id == given.cat
    &&& given.tx_bytes is Some ==> row.tx_bytes == given.tx_bytes->Some_0
    &&& given.tx_bytes is None ==> row.tx_bytes == 0
    &&& given.rx_bytes is Some ==> row.rx_bytes == given.rx_bytes->Some_0
    &&& given.rx_bytes is None ==> row.rx_bytes == 0
}

/// The bytes of an application both ways, up to what a count can hold.
pub open spec fn both_ways(tx: u64, rx: u64) -> int {
    if tx + rx < 0x1_0000_0000_0000_0000 {
        tx + rx
    } else {
        0xffff_ffff_ffff_ffff
    }
}

/// An application report lists as many applications as are asked for or there
/// are, each as it was reported, those with the most bytes both ways first,
/// and leaves out only applications with no more bytes than each one listed.
pub proof fn law_the_largest_applications_are_listed(
    rows: Vec<DpiRow>,
    top: u16,
    output: StatsQueryOutput,
)
    requires
        call_ensures(application_report, (rows, top), output),
    ensures
        output.report@ == "dpiApplications"@,
        output.wan_hourly is None,
        output.top_applications is Some,
        ({
            let shown = output.top_applications->Some_0@;
            &&& shown.len() == if rows@.len() < top {
                rows@.len()
            } else {
                top as nat
            }
            &&& forall|i: int|
                #![trigger shown[i]]
                0 <= i < shown.len() ==> exists|k: int|
                    0 <= k < rows@.len() && shows_application(shown[i], #[trigger] rows@[k])
            &&& forall|i: int, j: int|
                0 <= i < j < shown.len() ==> both_ways(
                    (#[trigger] shown[i]).tx_bytes,
                    shown[i].rx_bytes,
                ) >= both_ways((#[trigger] shown[j]).tx_bytes, shown[j].rx_bytes)
            &&& forall|k: int|
                #![trigger rows@[k]]
                0 <= k < rows@.len() ==> (exists|i: int|
                    0 <= i < shown.len() && shows_application(#[trigger] shown[i], rows@[k]))
                    || forall|i: int|
                    0 <= i < shown.len() ==> both_ways(
                        (#[trigger] shown[i]).tx_bytes,
                        shown[i].rx_bytes,
                    ) >= both_ways(
                        if rows@[k].tx_bytes is Some {
                            rows@[k].tx_bytes->Some_0
                        } else {
                            0
                        },
                        if rows@[k].rx_bytes is Some {
                            rows@[k].rx_bytes->Some_0
                        } else {
                            0
                        },
                    )
        }),
{
    broadcast use vstd::seq_lib::group_to_multiset_ensures;

    let all = rows@.map_values(|row: DpiRow| crate::stats::application_row(row));
    let sorted = stable_sort(all, volume_order());
    let shown = output.top_applications->Some_0@;
    law_sorting_orders_and_keeps_the_rows(all, volume_order());
    assert forall|i: int| 0 <= i < shown.len() implies shown[i] == sorted[i] by {}
    assert forall|i: int| #![trigger shown[i]] 0 <= i < shown.len() implies exists|k: int|
        0 <= k < rows@.len() && shows_application(shown[i], #[trigger] rows@[k]) by {
        assert(sorted.contains(sorted[i]));
        assert(all.to_multiset().count(sorted[i]) > 0);
        assert(all.contains(sorted[i]));
        let k = choose|k: int| 0 <= k < all.len() && all[k] == sorted[i];
        assert(shows_application(shown[i], rows@[k]));
    }
    assert forall|i: int, j: int| 0 <= i < j < shown.len() implies both_ways(
        (#[trigger] shown[i]).tx_bytes,
        shown[i].rx_bytes,
    ) >= both_ways((#[trigger] shown[j]).tx_bytes, shown[j].rx_bytes) by {
        assert(!crate::order::before(volume_order()(sorted[j]), volume_order()(sorted[i])));
    }
    assert forall|k: int| #![trigger rows@[k]] 0 <= k < rows@.len() implies (exists|i: int|
        0 <= i < shown.len() && shows_application(#[trigger] shown[i], rows@[k])) || forall|i: int|
        0 <= i < shown.len() ==> both_ways((#[trigger] shown[i]).tx_bytes, shown[i].rx_bytes)
            >= both_ways(
            if rows@[k].tx_bytes is Some {
                rows@[k].tx_bytes->Some_0
            } else {
                0
            },
            if rows@[k].rx_bytes is Some {
                rows@[k].rx_bytes->Some_0
            } else {
                0
            },
        ) by {
        assert(shows_application(all[k], rows@[k]));
        assert(all.contains(all[k]));
        assert(sorted.to_multiset().count(all[k]) > 0);
        assert(sorted.contains(all[k]));
        let at = choose|at: int| 0 <= at < sorted.len() && sorted[at] == all[k];
        if at < shown.len() {
            assert(shows_application(shown[at], rows@[k]));
        } else {
            assert forall|i: int| 0 <= i < shown.len() implies both_ways(
                (#[trigger] shown[i]).tx_bytes,
                shown[i].rx_bytes,
            ) >= both_ways(all[k].tx_bytes, all[k].rx_bytes) by {
                assert(shown[i] == sorted[i]);
                assert(!crate::order::before(volume_order()(sorted[at]), volume_order()(sorted[i])));
            }
        }
    }
}

// ---------------------------------------------------------------------------
// Networks
// ---------------------------------------------------------------------------

/// Whether a caller is in the group that secrets are disclosed to.
pub open spec fn in_admin_group(principal: Option<&IdentityPrincipal>) -> bool {
    principal is Some && exists|k: int|
        0 <= k < principal->Some_0.groups@.len() && (
        #[trigger] principal->Some_0.groups@[k])@ == "mcp-admins"@
}

proof fn lemma_admin(principal: Option<&IdentityPrincipal>)
    ensures
        crate::networks::is_admin(principal) == in_admin_group(principal),
{
    if let Some(identity) = principal {
        let all = texts(identity.groups@);
        if all.contains("mcp-admins"@) {
            let k = choose|k: int| 0 <= k < all.len() && all[k] == "mcp-admins"@;
            assert(principal->Some_0.groups@[k]@ == "mcp-admins"@);
        }
        if in_admin_group(principal) {
            let k = choose|k: int|
                0 <= k < principal->Some_0.groups@.len() && (
                #[trigger] principal->Some_0.groups@[k])@ == "mcp-admins"@;
            assert(all[k] == "mcp-admins"@);
        }
    }
}

/// Secrets are asked for by members of the admin group alone.
pub proof fn law_only_admins_ask_for_secrets(
    include_secrets: bool,
    principal: Option<&IdentityPrincipal>,
    result: Result<(), ToolError>,
)
    requires
        call_ensures(check_disclosure, (include_secrets, principal), result),
    ensures
        result is Ok <==> !include_secrets || in_admin_group(principal),
        result matches Err(error) ==> error.kind == ErrorKind::InvalidParams,
{
    lemma_admin(principal);
}

/// A view of a wireless network shows its own id, name, switch, security and
/// visibility, and its passphrase only where it is disclosed; otherwise a
/// marker stands for it, and nothing where there is none.
pub proof fn law_wlan_views_show_the_network(
    wlan: WlanConf,
    networks: &Vec<NetworkConf>,
    disclose: bool,
    view: WlanView,
)
    requires
        call_ensures(wlan_view, (wlan, networks, disclose), view),
    ensures
        view.id == wlan.id,
        view.ssid == wlan.name,
        view.enabled == wlan.enabled,
        view.security == wlan.security,
        view.hidden == wlan.hide_ssid,
        view.passphrase is Some <==> wlan.x_passphrase is Some,
        wlan.x_passphrase is Some && disclose ==> view.passphrase->Some_0@
            == wlan.x_passphrase->Some_0@,
        wlan.x_passphrase is Some && !disclose ==> view.passphrase->Some_0@ == "[redacted]"@,
        wlan.networkconf_id is None ==> view.network is None,
        wlan.networkconf_id matches Some(id) ==> {
            &&& (forall|k: int| 0 <= k < networks@.len() ==> (#[trigger] networks@[k]).id@ != id@)
                ==> view.network is None
            &&& forall|k: int|
                #![trigger networks@[k]]
                0 <= k < networks@.len() && networks@[k].id@ == id@ && (forall|later: int|
                    k < later < networks@.len() ==> (#[trigger] networks@[later]).id@ != id@)
                    ==> view.network == networks@[k].name
        },
{
    if let Some(id) = wlan.networkconf_id {
        lemma_network_name(networks@, id@);
    }
}

proof fn lemma_network_name(networks: Seq<NetworkConf>, id: Seq<char>)
    ensures
        ({
            let name = crate::networks::network_name(networks, id);
            &&& (forall|k: int| 0 <= k < networks.len() ==> (#[trigger] networks[k]).id@ != id)
                ==> name is None
            &&& forall|k: int|
                #![trigger networks[k]]
                0 <= k < networks.len() && networks[k].id@ == id && (forall|later: int|
                    k < later < networks.len() ==> (#[trigger] networks[later]).id@ != id) ==> name
                    == networks[k].name
        }),
    decreases networks.len(),
{
    if networks.len() > 0 {
        let rest = networks.drop_last();
        lemma_network_name(rest, id);
        let name = crate::networks::network_name(networks, id);
        let end = networks.len() - 1;
        assert forall|k: int| 0 <= k < rest.len() implies #[trigger] rest[k] == networks[k] by {}
        if forall|k: int| 0 <= k < networks.len() ==> (#[trigger] networks[k]).id@ != id {
            assert(networks[end].id@ != id);
            assert forall|k: int| 0 <= k < rest.len() implies (#[trigger] rest[k]).id@ != id by {
                assert(networks[k].id@ != id);
            }
        }
        assert forall|k: int|
            #![trigger networks[k]]
            0 <= k < networks.len() && networks[k].id@ == id && (forall|later: int|
                k < later < networks.len() ==> (#[trigger] networks[later]).id@ != id) implies name
            == networks[k].name by {
            if k < end {
                assert(networks[end].id@ != id);
                assert(rest[k].id@ == id);
                assert forall|later: int| k < later < rest.len() implies (
                #[trigger] rest[later]).id@ != id by {
                    assert(networks[later].id@ != id);
                }
            }
        }
    }
}

/// Networks are shown in order, each with its own fields.
pub proof fn law_network_views_show_the_networks(
    networks: Vec<NetworkConf>,
    views: Vec<NetworkView>,
)
    requires
        call_ensures(network_views, (networks,), views),
    ensures
        views@.len() == networks@.len(),
        forall|i: int|
            #![trigger views@[i]]
            0 <= i < views@.len() ==> {
                &&& views@[i].name == networks@[i].name
                &&& views@[i].purpose == networks@[i].purpose
                &&& views@[i].vlan == networks@[i].vlan
                &&& views@[i].subnet == networks@[i].ip_subnet
                &&& views@[i].enabled == networks@[i].enabled
                &&& views@[i].dhcp_enabled == networks@[i].dhcpd_enabled
                &&& views@[i].dhcp_start == networks@[i].dhcpd_start
                &&& views@[i].dhcp_stop == networks@[i].dhcpd_stop
            },
{
}

/// A read shows the sections asked for and no other: every network as it is
/// shown alone, and every wireless network as it is shown alone, its secret
/// disclosed only where it was asked for by an admin.
pub proof fn law_network_reads_show_the_sections_asked_for(
    input: &NetworksReadInput,
    principal: Option<&IdentityPrincipal>,
    networks: Vec<NetworkConf>,
    wlans: Vec<WlanConf>,
    result: Result<NetworksReadOutput, ToolError>,
    views: Vec<NetworkView>,
)
    requires
        call_ensures(networks_read, (input, principal, networks, wlans), result),
        call_ensures(network_views, (networks,), views),
    ensures
        result is Ok <==> !input.include_secrets || in_admin_group(principal),
        result matches Ok(output) ==> {
            &&& input.section == Some(NetworksSection::Wlans) ==> output.networks@.len() == 0
            &&& input.section != Some(NetworksSection::Wlans) ==> output.networks@ == views@
            &&& input.section == Some(NetworksSection::Networks) ==> output.wlans@.len() == 0
            &&& input.section != Some(NetworksSection::Networks) ==> output.wlans@.len()
                == wlans@.len()
            &&& forall|i: int|
                #![trigger output.wlans@[i]]
                0 <= i < output.wlans@.len() ==> {
                    &&& output.wlans@[i].id == wlans@[i].id
                    &&& output.wlans@[i].ssid == wlans@[i].name
                    &&& output.wlans@[i].enabled == wlans@[i].enabled
                    &&& output.wlans@[i].security == wlans@[i].security
                    &&& output.wlans@[i].hidden == wlans@[i].hide_ssid
                    &&& output.wlans@[i].passphrase is Some <==> wlans@[i].x_passphrase is Some
                    &&& wlans@[i].x_passphrase is Some && input.include_secrets
                        ==> output.wlans@[i].passphrase->Some_0@
                        == wlans@[i].x_passphrase->Some_0@
                    &&& wlans@[i].x_passphrase is Some && !input.include_secrets
                        ==> output.wlans@[i].passphrase->Some_0@ == "[redacted]"@
                }
        },
{
    lemma_admin(principal);
}

/// Wireless networks are read unless only the networks are asked for.
pub proof fn law_wlans_are_read_unless_left_out(section: Option<NetworksSection>, wanted: bool)
    requires
        call_ensures(wants_wlans, (section,), wanted),
    ensures
        wanted <==> section is None || section == Some(NetworksSection::Wlans),
{
    if let Some(one) = section {
        assert(one == NetworksSection::Wlans || one == NetworksSection::Networks);
    }
}

// ---------------------------------------------------------------------------
// Ties
// ---------------------------------------------------------------------------

/// Rows of an event search at one time stand in the order they were read,
/// events before alarms.
pub proof fn law_events_of_one_time_keep_their_order(
    events: Seq<LegacyEvent>,
    alarms: Seq<LegacyAlarm>,
    now: int,
    input: EventsSearchInput,
    time: u64,
)
    ensures
        ({
            let alike = |source: EventSource|
                match source {
                    EventSource::Event(event) => event.time == Some(time),
                    EventSource::Alarm(alarm) => alarm.time == Some(time),
                };
            let read = events.map_values(|event: LegacyEvent| EventSource::Event(event))
                + alarms.map_values(|alarm: LegacyAlarm| EventSource::Alarm(alarm));
            found_events(events, alarms, now, input).filter(alike) == read.filter(
                source_filter(
                    input.kind,
                    crate::clock::window_start(now, window_hours(input) as int),
                    now,
                    filter_text(opt_string(input.category)),
                    filter_text(opt_string(input.client)),
                ),
            ).filter(alike)
        }),
{
    let alike = |source: EventSource|
        match source {
            EventSource::Event(event) => event.time == Some(time),
            EventSource::Alarm(alarm) => alarm.time == Some(time),
        };
    let read = events.map_values(|event: LegacyEvent| EventSource::Event(event))
        + alarms.map_values(|alarm: LegacyAlarm| EventSource::Alarm(alarm));
    let test = source_filter(
        input.kind,
        crate::clock::window_start(now, window_hours(input) as int),
        now,
        filter_text(opt_string(input.category)),
        filter_text(opt_string(input.client)),
    );
    let rank = crate::order::by_number(-(time as int));
    assert(read =~= event_sources(events) + alarm_sources(alarms));
    crate::order::law_sorting_is_stable(read.filter(test), source_order(), rank);
    assert(crate::order::with_key(source_order(), rank) =~= alike);
}

} // verus!
