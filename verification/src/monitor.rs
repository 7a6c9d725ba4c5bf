//! Watching the selected connection between requests.
use vstd::prelude::*;
use crate::nmcli::ConnectionState;
use crate::text::{chars_eq, chars_of};

verus! {

/// What the watcher remembers between two looks at the connection.
pub struct Monitor {
    /// The state seen last.
    pub previous: ConnectionState,
    /// The failure reported last, empty when the last look succeeded.
    pub last_error: String,
}

/// What one look at the connection reports.
#[derive(Debug)]
pub struct Report {
    /// The connection ended by itself since the last look.
    pub ended: bool,
    /// A failure to report (reported once until it changes).
    pub error: Option<String>,
    pub state: ConnectionState,
    pub address: String,
}

/// The message shown when the connection ended by itself.
pub open spec fn ended_text() -> Seq<char> {
    "The VPN connection ended. Connect again when you are ready."@
}

/// The message shown when NetworkManager is not running.
pub open spec fn not_running_text() -> Seq<char> {
    "NetworkManager is not running."@
}

/// The outcome of one look, as the specification states it.
pub struct Look {
    /// The state the watcher remembers afterwards.
    pub previous: ConnectionState,
    /// The failure the watcher remembers afterwards.
    pub last_error: Seq<char>,
    pub ended: bool,
    pub error: Option<Seq<char>>,
    pub state: ConnectionState,
    pub address: Seq<char>,
}

/// The outcome of a look that found the connection's state and address, or a failure.
pub open spec fn observed(previous: ConnectionState, last_error: Seq<char>, look: Result<(ConnectionState, Seq<char>), Seq<char>>) -> Look {
    match look {
        Ok((state, address)) => Look {
            previous: state,
            last_error: seq![],
            ended: previous == ConnectionState::Connected && state == ConnectionState::Idle,
            error: None,
            state,
            address,
        },
        Err(e) => Look {
            previous: ConnectionState::Unavailable,
            last_error: e,
            ended: false,
            error: if last_error != e {
                Some(e)
            } else {
                None
            },
            state: ConnectionState::Unavailable,
            address: seq![],
        },
    }
}

/// A look's result as sequences.
pub open spec fn look_view(look: Result<(ConnectionState, String), String>) -> Result<(ConnectionState, Seq<char>), Seq<char>> {
    match look {
        Ok((s, a)) => Ok((s, a@)),
        Err(e) => Err(e@),
    }
}

impl Monitor {
    /// A watcher that has seen nothing yet.
    pub fn new() -> (r: Monitor)
        ensures
            r.previous == ConnectionState::Idle,
            r.last_error@.len() == 0,
    {
        Monitor { previous: ConnectionState::Idle, last_error: String::new() }
    }

    /// After a request was handled its own outcome is reported, so a disconnect it caused
    /// is not announced as a dropped connection.
    pub fn request_handled(&mut self)
        ensures
            final(self).previous == ConnectionState::Idle,
            final(self).last_error == old(self).last_error,
    {
        self.previous = ConnectionState::Idle;
    }

    /// Takes one look at the connection: its state and address, or why it could not be read.
    pub fn observe(&mut self, look: Result<(ConnectionState, String), String>) -> (r: Report)
        ensures
            ({
                let o = observed(old(self).previous, old(self).last_error@, look_view(look));
                &&& final(self).previous == o.previous
                &&& final(self).last_error@ == o.last_error
                &&& r.ended == o.ended
                &&& match (r.error, o.error) {
                    (Some(a), Some(b)) => a@ == b,
                    (None, None) => true,
                    _ => false,
                }
                &&& r.state == o.state
                &&& r.address@ == o.address
            }),
    {
        match look {
            Ok((state, address)) => {
                let ended = self.previous == ConnectionState::Connected && state == ConnectionState::Idle;
                self.previous = state;
                self.last_error = String::new();
                Report { ended, error: None, state, address }
            },
            Err(e) => {
                let error = if !chars_eq(&chars_of(self.last_error.as_str()), &chars_of(e.as_str())) {
                    Some(e.clone())
                } else {
                    None
                };
                self.last_error = e;
                self.previous = ConnectionState::Unavailable;
                Report { ended: false, error, state: ConnectionState::Unavailable, address: String::new() }
            },
        }
    }
}

/// The message shown when the connection ended by itself.
pub fn ended_message() -> (r: String)
    ensures
        r@ == ended_text(),
{
    String::from_str("The VPN connection ended. Connect again when you are ready.")
}

/// What `nmcli -t -f RUNNING general` reports when no profile is selected: idle when
/// NetworkManager runs, a failure otherwise.
pub fn running_status(output: &str) -> (r: Result<(ConnectionState, String), String>)
    ensures
        output@ == "running"@ ==> (r matches Ok((s, a)) && s == ConnectionState::Idle && a@.len() == 0),
        output@ != "running"@ ==> (r matches Err(m) && m@ == not_running_text()),
{
    if chars_eq(&chars_of(output), &chars_of("running")) {
        Ok((ConnectionState::Idle, String::new()))
    } else {
        Err(String::from_str("NetworkManager is not running."))
    }
}

/// The message shown when the cleanup before exit failed.
pub fn shutdown_failure(error: &str) -> (r: String)
    ensures
        r@ == "Could not finish disconnecting. The app is still open; try closing again. "@ + error@,
{
    String::from_str("Could not finish disconnecting. The app is still open; try closing again. ").concat(error)
}

/// A connection that drops by itself is announced once: the look that finds it idle after
/// it was connected reports the end, and the next look that finds it idle does not.
pub proof fn lemma_end_announced_once(last_error: Seq<char>, address1: Seq<char>, address2: Seq<char>)
    ensures
        ({
            let o1 = observed(ConnectionState::Connected, last_error, Ok((ConnectionState::Idle, address1)));
            let o2 = observed(o1.previous, o1.last_error, Ok((ConnectionState::Idle, address2)));
            o1.ended && !o2.ended
        }),
{
}

/// A failure to read the connection never shows it as connected, and the same failure
/// seen twice in a row is reported only the first time.
pub proof fn lemma_failure_reported_once(previous: ConnectionState, last_error: Seq<char>, e: Seq<char>)
    ensures
        ({
            let o1 = observed(previous, last_error, Err(e));
            let o2 = observed(o1.previous, o1.last_error, Err(e));
            &&& o1.state == ConnectionState::Unavailable
            &&& o2.error is None
        }),
{
}

} // verus!
