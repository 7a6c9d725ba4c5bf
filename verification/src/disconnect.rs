//! Deactivating one VPN connection and confirming that it is gone.
//!
//! The caller runs each command the machine asks for and reports the reply back;
//! between confirmations it pauses for a moment, and it tells the machine once five
//! seconds have passed since the deactivation command was answered.
use vstd::prelude::*;
use crate::commands::{Command, active_listing, deactivate, deactivation, list_active, texts};
use crate::ids::{uuid_string, uuid_text};
use crate::text::{chars_eq, chars_of, lines, split_lines, views};

verus! {

/// Why a disconnection failed.
#[derive(Debug, PartialEq, Eq)]
pub enum DisconnectError {
    /// Listing the active connections failed with this message.
    Query(String),
    /// The deactivation command failed with this message and the connection is still active.
    Down(String),
    /// The connection was still active when the waiting time was over.
    StillActive,
}

/// The message shown for a failed disconnection.
pub open spec fn disconnect_error_text(e: DisconnectError) -> Seq<char> {
    match e {
        DisconnectError::Query(m) => m@,
        DisconnectError::Down(m) => "NetworkManager could not disconnect the VPN: "@ + m@,
        DisconnectError::StillActive => "The VPN is still active. Try Disconnect again."@,
    }
}

impl DisconnectError {
    /// The message shown for this failure.
    pub fn message(&self) -> (r: String)
        ensures
            r@ == disconnect_error_text(*self),
    {
        match self {
            DisconnectError::Query(m) => m.clone(),
            DisconnectError::Down(m) => String::from_str("NetworkManager could not disconnect the VPN: ").concat(
                m.as_str(),
            ),
            DisconnectError::StillActive => String::from_str("The VPN is still active. Try Disconnect again."),
        }
    }
}

/// Where a disconnection stands.
#[derive(Debug, PartialEq, Eq)]
pub enum DisconnectPhase {
    /// Waiting for the first listing of active connections.
    Checking,
    /// Waiting for the reply to the deactivation command.
    Deactivating,
    /// Waiting for a listing that confirms the connection is gone; holds the deactivation
    /// command's failure message, if it failed.
    Confirming { down_failure: Option<String> },
    Finished,
}

/// What the caller does next.
#[derive(Debug)]
pub enum DisconnectAction {
    /// Run this command and report its reply.
    Run(Command),
    /// Pause briefly, then run this command and report its reply.
    PauseThenRun(Command),
    /// The disconnection is over, with this outcome.
    Finish(Result<(), DisconnectError>),
}

/// What comes next, as the specification states it.
pub enum DisconnectMove {
    /// List the active connections, after a pause or not.
    List { pause: bool },
    /// Deactivate the connection.
    Deactivate,
    Finish(Result<(), DisconnectError>),
}

/// Whether a listing of active connections has a line that is exactly this UUID.
pub open spec fn listed(listing: Seq<char>, id: u128) -> bool {
    exists|i: int| 0 <= i < lines(listing).len() && #[trigger] lines(listing)[i] == uuid_text(id)
}

/// The next phase and move after a reply (`Ok` output or `Err` message) to the last command.
pub open spec fn next_move(phase: DisconnectPhase, id: u128, reply: Result<String, String>, deadline_passed: bool) -> (
    DisconnectPhase,
    DisconnectMove,
) {
    match phase {
        DisconnectPhase::Checking => match reply {
            Err(m) => (DisconnectPhase::Finished, DisconnectMove::Finish(Err(DisconnectError::Query(m)))),
            Ok(listing) => if listed(listing@, id) {
                (DisconnectPhase::Deactivating, DisconnectMove::Deactivate)
            } else {
                (DisconnectPhase::Finished, DisconnectMove::Finish(Ok(())))
            },
        },
        DisconnectPhase::Deactivating => (
            DisconnectPhase::Confirming {
                down_failure: match reply {
                    Ok(_) => None,
                    Err(m) => Some(m),
                },
            },
            DisconnectMove::List { pause: false },
        ),
        DisconnectPhase::Confirming { down_failure } => match reply {
            Err(m) => (DisconnectPhase::Finished, DisconnectMove::Finish(Err(DisconnectError::Query(m)))),
            Ok(listing) => if !listed(listing@, id) {
                (DisconnectPhase::Finished, DisconnectMove::Finish(Ok(())))
            } else {
                match down_failure {
                    Some(m) => (
                        DisconnectPhase::Finished,
                        DisconnectMove::Finish(Err(DisconnectError::Down(m))),
                    ),
                    None => if deadline_passed {
                        (
                            DisconnectPhase::Finished,
                            DisconnectMove::Finish(Err(DisconnectError::StillActive)),
                        )
                    } else {
                        (DisconnectPhase::Confirming { down_failure: None }, DisconnectMove::List { pause: true })
                    },
                }
            },
        },
        DisconnectPhase::Finished => (DisconnectPhase::Finished, DisconnectMove::Finish(Ok(()))),
    }
}

/// Whether an action carries out a move for the connection `id`.
pub open spec fn carries_out(a: DisconnectAction, m: DisconnectMove, id: u128) -> bool {
    match (a, m) {
        (DisconnectAction::Run(c), DisconnectMove::List { pause: false }) => texts(c.args@)
            == active_listing() && c.limit == 8,
        (DisconnectAction::PauseThenRun(c), DisconnectMove::List { pause: true }) => texts(c.args@)
            == active_listing() && c.limit == 8,
        (DisconnectAction::Run(c), DisconnectMove::Deactivate) => texts(c.args@) == deactivation(id)
            && c.limit == 20,
        (DisconnectAction::Finish(r), DisconnectMove::Finish(s)) => r == s,
        _ => false,
    }
}

/// The disconnection of one VPN connection.
pub struct Disconnection {
    /// The UUID of the connection.
    pub id: u128,
    pub phase: DisconnectPhase,
}

/// Whether a listing has a line that is exactly `target`.
pub fn has_line(listing: &str, target: &[char]) -> (r: bool)
    ensures
        r == exists|i: int| 0 <= i < lines(listing@).len() && #[trigger] lines(listing@)[i] == target@,
{
    let ls = split_lines(&chars_of(listing));
    let ghost all = views(ls@);
    let mut i: usize = 0;
    while i < ls.len()
        invariant
            all == views(ls@),
            all == lines(listing@),
            i <= ls.len(),
            forall|j: int| 0 <= j < i ==> all[j] != target@,
        decreases ls.len() - i,
    {
        if chars_eq(&ls[i], target) {
            assert(all[i as int] == target@);
            return true;
        }
        i = i + 1;
    }
    false
}

impl Disconnection {
    /// Starts disconnecting the connection `id`: the first step lists the active connections.
    pub fn start(id: u128) -> (r: (Disconnection, DisconnectAction))
        ensures
            r.0.id == id,
            r.0.phase == DisconnectPhase::Checking,
            carries_out(r.1, DisconnectMove::List { pause: false }, id),
    {
        (Disconnection { id, phase: DisconnectPhase::Checking }, DisconnectAction::Run(list_active()))
    }

    /// Whether the reply awaited is the deactivation command's; the deadline for the
    /// connection to disappear runs from that reply.
    pub fn awaits_deactivation(&self) -> (r: bool)
        ensures
            r == (self.phase == DisconnectPhase::Deactivating),
    {
        match self.phase {
            DisconnectPhase::Deactivating => true,
            _ => false,
        }
    }

    /// Takes the reply to the last command and says what to do next. `deadline_passed`
    /// tells whether five seconds have passed since the deactivation command was answered.
    pub fn advance(&mut self, reply: Result<String, String>, deadline_passed: bool) -> (r: DisconnectAction)
        requires
            old(self).phase != DisconnectPhase::Finished,
        ensures
            final(self).id == old(self).id,
            final(self).phase == next_move(old(self).phase, old(self).id, reply, deadline_passed).0,
            carries_out(r, next_move(old(self).phase, old(self).id, reply, deadline_passed).1, old(self).id),
            // The only command that changes anything deactivates exactly this connection.
            r matches DisconnectAction::Run(c) ==> texts(c.args@) == active_listing() || texts(c.args@)
                == deactivation(old(self).id),
            // Success is reported only on a listing that no longer shows the connection.
            r matches DisconnectAction::Finish(Ok(())) ==> (reply matches Ok(t) && !listed(t@, old(self).id)),
            // A failed first listing ends the disconnection without touching the connection.
            old(self).phase == DisconnectPhase::Checking && reply is Err ==> r matches DisconnectAction::Finish(
                Err(DisconnectError::Query(_)),
            ),
    {
        let id = self.id;
        let target = chars_of(uuid_string(id).as_str());
        let mut phase = DisconnectPhase::Finished;
        std::mem::swap(&mut phase, &mut self.phase);
        match phase {
            DisconnectPhase::Checking => match reply {
                Err(m) => {
                    self.phase = DisconnectPhase::Finished;
                    DisconnectAction::Finish(Err(DisconnectError::Query(m)))
                },
                Ok(listing) => {
                    if has_line(listing.as_str(), &target) {
                        self.phase = DisconnectPhase::Deactivating;
                        DisconnectAction::Run(deactivate(id))
                    } else {
                        self.phase = DisconnectPhase::Finished;
                        DisconnectAction::Finish(Ok(()))
                    }
                },
            },
            DisconnectPhase::Deactivating => {
                self.phase = DisconnectPhase::Confirming {
                    down_failure: match reply {
                        Ok(_) => None,
                        Err(m) => Some(m),
                    },
                };
                DisconnectAction::Run(list_active())
            },
            DisconnectPhase::Confirming { down_failure } => match reply {
                Err(m) => {
                    self.phase = DisconnectPhase::Finished;
                    DisconnectAction::Finish(Err(DisconnectError::Query(m)))
                },
                Ok(listing) => {
                    if !has_line(listing.as_str(), &target) {
                        self.phase = DisconnectPhase::Finished;
                        DisconnectAction::Finish(Ok(()))
                    } else {
                        match down_failure {
                            Some(m) => {
                                self.phase = DisconnectPhase::Finished;
                                DisconnectAction::Finish(Err(DisconnectError::Down(m)))
                            },
                            None => {
                                if deadline_passed {
                                    self.phase = DisconnectPhase::Finished;
                                    DisconnectAction::Finish(Err(DisconnectError::StillActive))
                                } else {
                                    self.phase = DisconnectPhase::Confirming { down_failure: None };
                                    DisconnectAction::PauseThenRun(list_active())
                                }
                            },
                        }
                    }
                },
            },
            DisconnectPhase::Finished => {
                DisconnectAction::Finish(Ok(()))
            },
        }
    }
}

/// Deactivation is asked for at most once in a disconnection: only the first listing can
/// lead to it, and no phase leads back to that first listing.
pub proof fn lemma_single_deactivation(
    phase: DisconnectPhase,
    id: u128,
    reply: Result<String, String>,
    deadline_passed: bool,
)
    ensures
        next_move(phase, id, reply, deadline_passed).1 is Deactivate ==> phase == DisconnectPhase::Checking,
        next_move(phase, id, reply, deadline_passed).0 != DisconnectPhase::Checking,
{
}

/// The phase of a disconnection of `id` after its first `k` replies, each a command's
/// outcome together with whether the deadline had passed.
pub open spec fn phase_after(id: u128, replies: Seq<(Result<String, String>, bool)>, k: nat) -> DisconnectPhase
    decreases k,
{
    if k == 0 {
        DisconnectPhase::Checking
    } else {
        next_move(phase_after(id, replies, (k - 1) as nat), id, replies[k - 1].0, replies[k - 1].1).0
    }
}

/// The move that answers reply `k`.
pub open spec fn move_after(id: u128, replies: Seq<(Result<String, String>, bool)>, k: nat) -> DisconnectMove {
    next_move(phase_after(id, replies, k), id, replies[k as int].0, replies[k as int].1).1
}

/// The failure, if any, that a reply to the deactivation command carries.
pub open spec fn down_outcome(reply: Result<String, String>) -> Option<String> {
    match reply {
        Ok(_) => None,
        Err(m) => Some(m),
    }
}

/// Where a run of replies can have led.
proof fn lemma_phases(id: u128, replies: Seq<(Result<String, String>, bool)>, k: nat)
    requires
        k <= replies.len(),
    ensures
        (k == 0) == (phase_after(id, replies, k) == DisconnectPhase::Checking),
        phase_after(id, replies, k) == DisconnectPhase::Deactivating ==> k == 1 && move_after(id, replies, 0)
            is Deactivate,
        phase_after(id, replies, k) matches DisconnectPhase::Confirming { down_failure } ==> {
            &&& k >= 2
            &&& phase_after(id, replies, 1) == DisconnectPhase::Deactivating
            &&& down_failure == down_outcome(replies[1].0)
            &&& move_after(id, replies, (k - 1) as nat) is List
        },
    decreases k,
{
    if k > 0 {
        lemma_phases(id, replies, (k - 1) as nat);
    }
}

/// Over any run of replies, a disconnection deactivates the connection at most once, and
/// only in answer to the first listing when that listing shows the connection. It reports
/// success only on a listing that no longer shows the connection, and gives up with "still
/// active" only after the deactivation command succeeded and the deadline passed.
pub proof fn lemma_disconnect_run(id: u128, replies: Seq<(Result<String, String>, bool)>, k: nat)
    requires
        k < replies.len(),
        phase_after(id, replies, k) != DisconnectPhase::Finished,
    ensures
        move_after(id, replies, k) is Deactivate ==> k == 0 && (replies[0].0 matches Ok(t) && listed(t@, id)),
        move_after(id, replies, k) matches DisconnectMove::Finish(Ok(())) ==> (replies[k as int].0 matches Ok(t)
            && !listed(t@, id)) && (k == 0 || move_after(id, replies, (k - 1) as nat) is List),
        move_after(id, replies, k) matches DisconnectMove::Finish(Err(DisconnectError::StillActive)) ==> k >= 2
            && replies[k as int].1 && replies[1].0 is Ok,
{
    lemma_phases(id, replies, k);
}

} // verus!
