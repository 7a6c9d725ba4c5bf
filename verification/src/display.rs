//! What the window shows for its state: the words of the connection card, the
//! connected-time clock, and which controls take a click.
use vstd::prelude::*;
use crate::nmcli::ConnectionState;
use crate::screen::{Screen, Ui, edited_profile, is_locked};
use crate::text::{append_chars, chars_of, decimal, decimal_chars, string_of};

verus! {

/// How a connection state is coloured: active, under way, in trouble, or at rest.
#[derive(Clone, Copy, PartialEq, Eq, Debug, Structural)]
pub enum Tone {
    Positive,
    Pending,
    Alert,
    Quiet,
}

/// The words the connection card shows for a state.
#[derive(Debug)]
pub struct StatusWords {
    pub badge: String,
    pub title: String,
    pub subtitle: String,
    pub tone: Tone,
}

/// The badge of a state.
pub open spec fn badge_text(s: ConnectionState) -> Seq<char> {
    match s {
        ConnectionState::Connected => "Connected"@,
        ConnectionState::Connecting => "Connecting"@,
        ConnectionState::Disconnecting => "Disconnecting"@,
        ConnectionState::Unavailable => "Needs attention"@,
        ConnectionState::Idle => "Not connected"@,
    }
}

/// The heading of a state.
pub open spec fn title_text(s: ConnectionState) -> Seq<char> {
    match s {
        ConnectionState::Connected => "You're connected"@,
        ConnectionState::Connecting => "Opening your connection"@,
        ConnectionState::Disconnecting => "Closing your connection"@,
        ConnectionState::Unavailable => "Connection unavailable"@,
        ConnectionState::Idle => "Ready when you are"@,
    }
}

/// The line under the heading of a state.
pub open spec fn subtitle_text(s: ConnectionState) -> Seq<char> {
    match s {
        ConnectionState::Connected => "Your VPN connection is active."@,
        ConnectionState::Connecting => "Complete any sign-in prompt from your desktop."@,
        ConnectionState::Disconnecting => "Restoring your regular network connection."@,
        ConnectionState::Unavailable => "Check the message below and try again."@,
        ConnectionState::Idle => "Connect to your work network in one click."@,
    }
}

/// The colour of a state.
pub open spec fn tone_of(s: ConnectionState) -> Tone {
    match s {
        ConnectionState::Connected => Tone::Positive,
        ConnectionState::Connecting | ConnectionState::Disconnecting => Tone::Pending,
        ConnectionState::Unavailable => Tone::Alert,
        ConnectionState::Idle => Tone::Quiet,
    }
}

/// The words the connection card shows for `state`.
pub fn status_words(state: ConnectionState) -> (r: StatusWords)
    ensures
        r.badge@ == badge_text(state),
        r.title@ == title_text(state),
        r.subtitle@ == subtitle_text(state),
        r.tone == tone_of(state),
{
    let (badge, title, subtitle, tone) = match state {
        ConnectionState::Connected => (
            "Connected",
            "You're connected",
            "Your VPN connection is active.",
            Tone::Positive,
        ),
        ConnectionState::Connecting => (
            "Connecting",
            "Opening your connection",
            "Complete any sign-in prompt from your desktop.",
            Tone::Pending,
        ),
        ConnectionState::Disconnecting => (
            "Disconnecting",
            "Closing your connection",
            "Restoring your regular network connection.",
            Tone::Pending,
        ),
        ConnectionState::Unavailable => (
            "Needs attention",
            "Connection unavailable",
            "Check the message below and try again.",
            Tone::Alert,
        ),
        ConnectionState::Idle => (
            "Not connected",
            "Ready when you are",
            "Connect to your work network in one click.",
            Tone::Quiet,
        ),
    };
    StatusWords {
        badge: String::from_str(badge),
        title: String::from_str(title),
        subtitle: String::from_str(subtitle),
        tone,
    }
}

/// The label of the connect button in a state.
pub open spec fn action_text(s: ConnectionState) -> Seq<char> {
    match s {
        ConnectionState::Connected => "Disconnect"@,
        ConnectionState::Connecting => "Cancel connection"@,
        ConnectionState::Disconnecting => "Disconnecting…"@,
        _ => "Connect"@,
    }
}

/// The label of the connect button in `state`.
pub fn action_label(state: ConnectionState) -> (r: String)
    ensures
        r@ == action_text(state),
{
    let s = match state {
        ConnectionState::Connected => "Disconnect",
        ConnectionState::Connecting => "Cancel connection",
        ConnectionState::Disconnecting => "Disconnecting…",
        _ => "Connect",
    };
    String::from_str(s)
}

/// `n` in decimal, with a leading zero below ten (`{:02}`).
pub open spec fn two_digits(n: nat) -> Seq<char> {
    if n < 10 {
        seq!['0'] + decimal(n)
    } else {
        decimal(n)
    }
}

/// A count of seconds as hours, minutes and seconds: `HH:MM:SS`, the hours not limited to
/// two digits.
pub open spec fn clock(secs: nat) -> Seq<char> {
    two_digits(secs / 3600) + ":"@ + two_digits(secs / 60 % 60) + ":"@ + two_digits(secs % 60)
}

/// Appends `n` with a leading zero below ten.
fn push_two_digits(v: &mut Vec<char>, n: u64)
    ensures
        final(v)@ == old(v)@ + two_digits(n as nat),
{
    let ghost start = v@;
    if n < 10 {
        v.push('0');
    }
    let d = decimal_chars(n);
    append_chars(v, &d);
    if n < 10 {
        assert(v@ =~= start + (seq!['0'] + decimal(n as nat)));
    } else {
        assert(v@ =~= start + decimal(n as nat));
    }
}

/// The time the connection has been seen connected, from its count of seconds.
pub fn clock_text(secs: u64) -> (r: String)
    ensures
        r@ == clock(secs as nat),
{
    let mut v: Vec<char> = Vec::new();
    push_two_digits(&mut v, secs / 3600);
    append_chars(&mut v, &chars_of(":"));
    push_two_digits(&mut v, secs / 60 % 60);
    append_chars(&mut v, &chars_of(":"));
    push_two_digits(&mut v, secs % 60);
    proof {
        reveal_strlit(":");
    }
    assert(v@ =~= clock(secs as nat));
    string_of(&v)
}

/// How many profiles are saved, in words.
pub open spec fn saved_count(n: nat) -> Seq<char> {
    decimal(n) + if n == 1 {
        " saved profile"@
    } else {
        " saved profiles"@
    }
}

/// How many profiles are saved, in words.
pub fn saved_count_text(n: usize) -> (r: String)
    ensures
        r@ == saved_count(n as nat),
{
    let mut v = decimal_chars(n as u64);
    if n == 1 {
        append_chars(&mut v, &chars_of(" saved profile"));
    } else {
        append_chars(&mut v, &chars_of(" saved profiles"));
    }
    string_of(&v)
}

/// The VPN address as shown: a dash while there is none.
pub fn address_text(address: &str) -> (r: String)
    ensures
        address@.len() == 0 ==> r@ == "—"@,
        address@.len() > 0 ==> r@ == address@,
{
    if address.unicode_len() == 0 {
        String::from_str("—")
    } else {
        String::from_str(address)
    }
}

/// How the connection card says the profile signs in.
pub fn sign_in_text(has_password: bool) -> (r: String)
    ensures
        has_password ==> r@ == "Login saved"@,
        !has_password ==> r@ == "Ask when connecting"@,
{
    if has_password {
        String::from_str("Login saved")
    } else {
        String::from_str("Ask when connecting")
    }
}

/// How the profile list says whether a login is saved.
pub fn login_state_text(has_password: bool) -> (r: String)
    ensures
        has_password ==> r@ == "Login saved"@,
        !has_password ==> r@ == "No saved login"@,
{
    if has_password {
        String::from_str("Login saved")
    } else {
        String::from_str("No saved login")
    }
}

impl Ui {
    /// Whether the connect button takes a click: the worker is ready, the window is not
    /// closing, nothing is disconnecting, and the worker is idle unless a pending
    /// connection is to be cancelled.
    pub fn can_toggle(&self) -> (r: bool)
        ensures
            r == (self.ready && !self.quitting && self.state != ConnectionState::Disconnecting && (!self.busy
                || self.state == ConnectionState::Connecting)),
    {
        self.ready && !self.quitting && self.state != ConnectionState::Disconnecting && (!self.busy || self.state
            == ConnectionState::Connecting)
    }

    /// Whether the import button takes a click: the window is not locked, no file choice is
    /// open, a file is chosen and the worker is ready.
    pub fn can_import(&self) -> (r: bool)
        ensures
            r == (!is_locked(*self) && !self.picking && self.file is Some && self.ready),
    {
        !self.locked() && !self.picking && self.file.is_some() && self.ready
    }

    /// Whether a profile can be added: the window is not locked and the worker is ready.
    pub fn can_add_profile(&self) -> (r: bool)
        ensures
            r == (!is_locked(*self) && self.ready),
    {
        !self.locked() && self.ready
    }

    /// Whether the window moves between screens: the worker is idle and the window is not
    /// closing.
    pub fn can_navigate(&self) -> (r: bool)
        ensures
            r == (!self.busy && !self.quitting),
    {
        !self.busy && !self.quitting
    }

    /// Whether the login of the open settings can be saved.
    pub fn can_save_login(&self) -> (r: bool)
        ensures
            r == (!is_locked(*self) && edited_profile(*self) is Some),
    {
        !self.locked() && self.editing_profile().is_some()
    }

    /// Whether a configuration file can be chosen.
    pub fn can_pick(&self) -> (r: bool)
        ensures
            r == (!self.busy && !self.picking && !self.quitting),
    {
        !self.busy && !self.picking && !self.quitting
    }

    /// The label of the form's main button while a request runs ("Saving…", "Importing…")
    /// or at rest; the profile list's button adds a profile.
    pub fn footer_label(&self) -> (r: String)
        ensures
            r@ == match self.page {
                Screen::ProfileSettings => if self.busy && !self.quitting {
                    "Saving…"@
                } else {
                    "Save login"@
                },
                Screen::Import => if self.busy && !self.quitting {
                    "Importing…"@
                } else {
                    "Import profile"@
                },
                Screen::Profiles => "Add profile"@,
                Screen::Connection => "Disconnects automatically when you close the app."@,
            },
    {
        let working = self.busy && !self.quitting;
        let s = match self.page {
            Screen::ProfileSettings => if working {
                "Saving…"
            } else {
                "Save login"
            },
            Screen::Import => if working {
                "Importing…"
            } else {
                "Import profile"
            },
            Screen::Profiles => "Add profile",
            Screen::Connection => "Disconnects automatically when you close the app.",
        };
        String::from_str(s)
    }

    /// Whether the hint that an active connection blocks changes is shown: the window is
    /// locked while the worker is idle.
    pub fn shows_disconnect_hint(&self) -> (r: bool)
        ensures
            r == (is_locked(*self) && !self.busy),
    {
        self.locked() && !self.busy
    }
}

} // verus!
