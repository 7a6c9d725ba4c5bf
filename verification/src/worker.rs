//! What the background worker tells the window: the events around a handled request, and
//! the events of each look at the connection between requests.
use vstd::prelude::*;
use crate::commands::{Command, query_running, query_status, running_query, status_query, texts};
use crate::monitor::{Monitor, ended_message, ended_text, look_view, not_running_text, observed, running_status, shutdown_failure};
use crate::nmcli::{ConnectionState, parse_status, status_of};
use crate::profile::{Profiles, selected_profile};
use crate::screen::{VpnEvent, VpnRequest};

verus! {

/// Whether a request ends the worker: a shutdown before the window closes, or a stop
/// because the app is going away.
#[derive(Clone, Copy, PartialEq, Eq, Debug, Structural)]
pub enum Ending {
    No,
    Shutdown,
    Stop,
}

/// Whether `request` ends the worker.
pub fn ending_of(request: &VpnRequest) -> (r: Ending)
    ensures
        r == match *request {
            VpnRequest::Shutdown => Ending::Shutdown,
            VpnRequest::Stop => Ending::Stop,
            _ => Ending::No,
        },
{
    match request {
        VpnRequest::Shutdown => Ending::Shutdown,
        VpnRequest::Stop => Ending::Stop,
        _ => Ending::No,
    }
}

/// The event sent when a request is taken up: the worker is busy.
pub fn request_taken() -> (e: VpnEvent)
    ensures
        e matches VpnEvent::Busy(b) && b,
{
    VpnEvent::Busy(true)
}

/// Whether `e` hands the window this library.
pub open spec fn shows_library(e: VpnEvent, store: Profiles) -> bool {
    e matches VpnEvent::Profiles(p) && p.profiles@ == store.profiles@ && p.selected == store.selected
}

/// The events sent after a request was handled, whose outcome is `Ok` or the message of its
/// failure, and whether the worker stops.
///
/// A shutdown or stop that succeeded completes the shutdown and stops the worker. One that
/// failed reports the failure; a stop then ends the worker anyway, a shutdown keeps it
/// going. Any other request reports its failure, if any. A worker that goes on sends the
/// library, then says it is idle, and forgets the state seen last, so a disconnect the
/// request caused is not announced as a dropped connection.
pub fn after_request(ending: Ending, outcome: Result<(), String>, store: &Profiles, monitor: &mut Monitor) -> (r: (
    Vec<VpnEvent>,
    bool,
))
    ensures
        ending != Ending::No && outcome is Ok ==> r.1 && r.0@.len() == 1 && r.0@[0] is ShutdownComplete
            && *final(monitor) == *old(monitor),
        ending == Ending::Stop && outcome is Err ==> r.1 && r.0@.len() == 1 && *final(monitor) == *old(monitor),
        ending != Ending::No ==> (outcome matches Err(e) ==> (r.0@[0] matches VpnEvent::ShutdownFailed(m) && m@
            == "Could not finish disconnecting. The app is still open; try closing again. "@ + e@)),
        ending == Ending::Shutdown && outcome is Err ==> !r.1 && r.0@.len() == 3 && shows_library(r.0@[1], *store)
            && (r.0@[2] matches VpnEvent::Busy(b) && !b),
        ending == Ending::No ==> !r.1,
        ending == Ending::No && outcome is Ok ==> r.0@.len() == 2 && shows_library(r.0@[0], *store) && (r.0@[1] matches VpnEvent::Busy(
            b,
        ) && !b),
        ending == Ending::No ==> (outcome matches Err(e) ==> r.0@.len() == 3 && (r.0@[0] matches VpnEvent::Error(m)
            && m@ == e@) && shows_library(r.0@[1], *store) && (r.0@[2] matches VpnEvent::Busy(b) && !b)),
        !r.1 ==> final(monitor).previous == ConnectionState::Idle && final(monitor).last_error == old(monitor).last_error,
{
    let mut events: Vec<VpnEvent> = Vec::new();
    match outcome {
        Ok(()) => {
            if ending != Ending::No {
                events.push(VpnEvent::ShutdownComplete);
                return (events, true);
            }
        },
        Err(e) => {
            if ending != Ending::No {
                events.push(VpnEvent::ShutdownFailed(shutdown_failure(e.as_str())));
                if ending == Ending::Stop {
                    return (events, true);
                }
            } else {
                events.push(VpnEvent::Error(e));
            }
        },
    }
    events.push(VpnEvent::Profiles(store.duplicate()));
    events.push(VpnEvent::Busy(false));
    monitor.request_handled();
    (events, false)
}

/// The events of one look at the connection: its state and address, or why it could not be
/// read.
///
/// A connection seen idle right after it was seen connected is announced as ended; a
/// failure is reported when it differs from the one reported last; then the state follows,
/// unavailable after a failure and never connected.
pub fn after_look(monitor: &mut Monitor, look: Result<(ConnectionState, String), String>) -> (r: Vec<VpnEvent>)
    ensures
        ({
            let o = observed(old(monitor).previous, old(monitor).last_error@, look_view(look));
            let n: int = (if o.ended {
                1int
            } else {
                0int
            }) + (if o.error is Some {
                1int
            } else {
                0int
            });
            &&& final(monitor).previous == o.previous
            &&& final(monitor).last_error@ == o.last_error
            &&& r@.len() == n + 1
            &&& o.ended ==> (r@[0] matches VpnEvent::Error(m) && m@ == ended_text())
            &&& o.error matches Some(e) ==> (r@[n - 1] matches VpnEvent::Error(m) && m@ == e)
            &&& r@[n] matches VpnEvent::Status { state, address } && state == o.state && address@ == o.address
        }),
        look is Err ==> (r@.last() matches VpnEvent::Status { state, address } && state == ConnectionState::Unavailable
            && address@.len() == 0),
{
    let report = monitor.observe(look);
    let mut events: Vec<VpnEvent> = Vec::new();
    if report.ended {
        events.push(VpnEvent::Error(ended_message()));
    }
    if let Some(e) = report.error {
        events.push(VpnEvent::Error(e));
    }
    events.push(VpnEvent::Status { state: report.state, address: report.address });
    events
}

/// The command of a look at the connection: the state and addresses of the selected
/// profile's connection, or, with no profile selected, whether NetworkManager runs.
pub fn look_command(store: &Profiles) -> (c: Command)
    ensures
        match selected_profile(*store) {
            Some(p) => texts(c.args@) == status_query(p.nm_uuid),
            None => texts(c.args@) == running_query(),
        },
        c.limit == 8,
{
    match store.selected() {
        Some(p) => query_status(p.nm_uuid),
        None => query_running(),
    }
}

/// What a look found, from the reply to its command: the state and address of the
/// selected profile's connection; with none selected, idle while NetworkManager runs; or
/// the failure.
pub fn look_outcome(store: &Profiles, reply: Result<String, String>) -> (r: Result<(ConnectionState, String), String>)
    ensures
        match reply {
            Err(m) => r matches Err(e) && e@ == m@,
            Ok(out) => match selected_profile(*store) {
                Some(_) => r matches Ok((s, a)) && (s, a@) == status_of(out@),
                None => if out@ == "running"@ {
                    r matches Ok((s, a)) && s == ConnectionState::Idle && a@.len() == 0
                } else {
                    r matches Err(e) && e@ == not_running_text()
                },
            },
        },
{
    match reply {
        Err(m) => Err(m),
        Ok(out) => match store.selected() {
            Some(_) => Ok(parse_status(out.as_str())),
            None => running_status(out.as_str()),
        },
    }
}

/// The event sent when a connection attempt starts: connecting, with no address.
pub fn connecting_event() -> (e: VpnEvent)
    ensures
        e matches VpnEvent::Status { state, address } && state == ConnectionState::Connecting && address@.len() == 0,
{
    VpnEvent::Status { state: ConnectionState::Connecting, address: String::new() }
}

/// The event sent when a disconnect starts: disconnecting, with no address.
pub fn disconnecting_event() -> (e: VpnEvent)
    ensures
        e matches VpnEvent::Status { state, address } && state == ConnectionState::Disconnecting && address@.len()
            == 0,
{
    VpnEvent::Status { state: ConnectionState::Disconnecting, address: String::new() }
}

/// The events sent after a disconnect released every connection of the library: idle,
/// with no address, then the notice that the regular network is in use.
pub fn disconnected_events() -> (r: Vec<VpnEvent>)
    ensures
        r@.len() == 2,
        r@[0] matches VpnEvent::Status { state, address } && state == ConnectionState::Idle && address@.len() == 0,
        r@[1] matches VpnEvent::Notice(n) && n@ == "VPN disconnected. Your regular network connection is in use."@,
{
    vec![
        VpnEvent::Status { state: ConnectionState::Idle, address: String::new() },
        VpnEvent::Notice(String::from_str("VPN disconnected. Your regular network connection is in use.")),
    ]
}

} // verus!
