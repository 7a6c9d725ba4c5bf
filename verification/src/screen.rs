//! The window's state and how it answers the user and the background worker.
//!
//! Text fields, focus and timers belong to the toolkit; the operations here say what the
//! window does with them through their results (such as "clear the password field").
use vstd::prelude::*;
use crate::nmcli::ConnectionState;
use crate::profile::{
    Profile, ProfileError, Profiles, has_id, index_of, login_check, name_check, profile_error_text,
    selected_profile, validate_credentials,
};
use crate::text::{chars_of, trim, trimmed};

verus! {

/// The screens of the window.
#[derive(Clone, Copy, PartialEq, Eq, Debug, Structural)]
pub enum Screen {
    Connection,
    Profiles,
    Import,
    ProfileSettings,
}

/// What the window asks the background worker to do.
#[derive(Debug)]
pub enum VpnRequest {
    /// Import the configuration at `path` as a profile named `name`, with an optional login.
    Import { path: String, name: String, credentials: Option<(String, String)> },
    Select(u128),
    /// Save a login for a profile; no password keeps the saved one.
    SaveCredentials { id: u128, username: String, password: Option<String> },
    Connect,
    Disconnect,
    Remove(u128),
    /// Disconnect everything before the window closes.
    Shutdown,
    /// Disconnect everything because the app is going away.
    Stop,
}

/// What the background worker tells the window.
#[derive(Debug)]
pub enum VpnEvent {
    Profiles(Profiles),
    Status { state: ConnectionState, address: String },
    Error(String),
    Notice(String),
    Busy(bool),
    Ready,
    ShutdownComplete,
    ShutdownFailed(String),
}

/// What the window does after an event, besides redrawing.
#[derive(Debug, PartialEq, Eq)]
pub struct Effects {
    /// Replace the password field with an empty one.
    pub reset_password: bool,
    /// Close the app.
    pub quit: bool,
}

/// What a click on the connect button asks for.
#[derive(Clone, Copy, Debug, PartialEq, Eq, Structural)]
pub enum Toggle {
    Nothing,
    /// Interrupt the pending activation and disconnect.
    CancelAndDisconnect,
    Disconnect,
    /// Clear any earlier cancellation and connect.
    Connect,
}

/// What a request to close the window leads to.
#[derive(Clone, Copy, Debug, PartialEq, Eq, Structural)]
pub enum QuitStep {
    /// A shutdown is already under way.
    Ignore,
    /// The worker is gone; close at once.
    QuitNow,
    /// Cancel any activation and ask the worker to disconnect everything first.
    Shutdown,
}

/// How choosing a configuration file ended.
#[derive(Debug)]
pub enum PickOutcome {
    Chosen(String),
    Dismissed,
    Failed,
}

/// The state of the window.
#[derive(Debug)]
pub struct Ui {
    pub profiles: Profiles,
    pub state: ConnectionState,
    pub address: String,
    /// Whether the connected-time counter runs.
    pub timing: bool,
    pub page: Screen,
    /// The configuration file chosen for import.
    pub file: Option<String>,
    pub error: Option<String>,
    pub notice: Option<String>,
    pub ready: bool,
    pub busy: bool,
    pub picking: bool,
    pub confirm_remove: bool,
    /// The profile whose settings are open.
    pub editing: Option<u128>,
    pub quitting: bool,
    pub show_password: bool,
    /// The screen the settings return to.
    pub settings_return: Screen,
    pub backend_stopped: bool,
}

/// While the window is closing it shows the connection as disconnecting.
pub open spec fn shows_quitting(u: Ui) -> bool {
    u.quitting ==> u.state == ConnectionState::Disconnecting
}

/// Whether the window refuses changes: while closing, while the worker is busy, and while
/// a connection is active or changing.
pub open spec fn is_locked(u: Ui) -> bool {
    u.quitting || u.busy || u.state == ConnectionState::Connected || u.state == ConnectionState::Connecting
        || u.state == ConnectionState::Disconnecting
}

/// The profile whose settings are open.
pub open spec fn edited_profile(u: Ui) -> Option<Profile> {
    match u.editing {
        Some(id) => match index_of(u.profiles.profiles@, id) {
            Some(i) => Some(u.profiles.profiles@[i]),
            None => None,
        },
        None => None,
    }
}

/// The message shown when the worker can no longer be reached with a request.
pub open spec fn service_stopped_text() -> Seq<char> {
    "The profile service stopped. Close and reopen the app."@
}

/// The message shown when the worker stopped by itself.
pub open spec fn connection_service_stopped_text() -> Seq<char> {
    "The connection service stopped. Close and reopen the app."@
}

/// The message shown when the file picker could not be opened.
pub open spec fn picker_failed_text() -> Seq<char> {
    "Could not open the file picker. Check that your desktop portal is running."@
}

/// Why the import form is refused: the name's refusal first, then the login's (an empty
/// username with an empty password asks for no login and is not checked).
pub open spec fn import_refusal(p: Profiles, name: Seq<char>, username: Seq<char>, password: Seq<char>) -> Option<
    ProfileError,
> {
    match name_check(p.profiles@, name) {
        Err(e) => Some(e),
        Ok(_) => if !(trim(username).len() == 0 && password.len() == 0) {
            match login_check(username, password, false) {
                Err(e) => Some(e),
                Ok(_) => None,
            }
        } else {
            None
        },
    }
}

/// How the window takes a new copy of the profile library: a grown library while a request
/// was pending is a finished import (back to the connection screen, file cleared); a changed
/// selection stops the counter and resets the shown state (unless closing); the settings of
/// a profile that is gone close.
pub open spec fn profiles_applied(old: Ui, new: Ui, p: Profiles, fx: Effects) -> bool {
    let imported = old.busy && p.profiles@.len() > old.profiles.profiles@.len();
    let selection_changed = p.selected != old.profiles.selected;
    let editing_gone = old.editing is Some && !has_id(p.profiles@, old.editing->0);
    &&& new.profiles == p
    &&& new.timing == (if selection_changed { false } else { old.timing })
    &&& new.address@ == (if selection_changed { Seq::<char>::empty() } else { old.address@ })
    &&& new.state == (if selection_changed && !old.quitting {
        ConnectionState::Idle
    } else {
        old.state
    })
    &&& new.editing == (if editing_gone { None } else { old.editing })
    &&& new.page == (if imported {
        Screen::Connection
    } else if editing_gone {
        Screen::Profiles
    } else {
        old.page
    })
    &&& new.file == (if imported { None } else { old.file })
    &&& fx == (Effects { reset_password: imported || editing_gone, quit: false })
    &&& new.show_password == (if imported || editing_gone { false } else { old.show_password })
    &&& new == (Ui {
        profiles: new.profiles,
        timing: new.timing,
        address: new.address,
        state: new.state,
        editing: new.editing,
        page: new.page,
        file: new.file,
        show_password: new.show_password,
        ..old
    })
}

impl Ui {
    /// The window as it opens: on `page`, before the worker is ready.
    pub fn new(page: Screen) -> (r: Ui)
        ensures
            r.page == page,
            r.profiles.profiles@.len() == 0,
            r.profiles.selected is None,
            r.state == ConnectionState::Idle,
            !r.ready && !r.busy && !r.quitting && !r.picking && !r.timing,
            r.editing is None && r.file is None && r.error is None && r.notice is None,
            shows_quitting(r),
    {
        Ui {
            profiles: Profiles::new(),
            state: ConnectionState::Idle,
            address: String::new(),
            timing: false,
            page,
            file: None,
            error: None,
            notice: None,
            ready: false,
            busy: false,
            picking: false,
            confirm_remove: false,
            editing: None,
            quitting: false,
            show_password: false,
            settings_return: Screen::Connection,
            backend_stopped: false,
        }
    }

    /// Whether the window refuses changes.
    pub fn locked(&self) -> (r: bool)
        ensures
            r == is_locked(*self),
    {
        self.quitting || self.busy || self.state == ConnectionState::Connected || self.state
            == ConnectionState::Connecting || self.state == ConnectionState::Disconnecting
    }

    /// The profile whose settings are open.
    pub fn editing_profile(&self) -> (r: Option<&Profile>)
        ensures
            match r {
                Some(p) => edited_profile(*self) == Some(*p),
                None => edited_profile(*self) is None,
            },
    {
        match self.editing {
            Some(id) => match self.profiles.position(id) {
                Some(i) => Some(&self.profiles.profiles[i]),
                None => None,
            },
            None => None,
        }
    }

    /// Records that a request was handed to the worker (`delivered`) or could not be.
    pub fn record_send(&mut self, delivered: bool)
        ensures
            final(self).notice is None,
            delivered ==> final(self).error is None && final(self).busy,
            !delivered ==> (final(self).error matches Some(m) && m@ == service_stopped_text()) && !final(self).busy,
            final(self).state == old(self).state,
            final(self).quitting == old(self).quitting,
            final(self).page == old(self).page,
            final(self).profiles == old(self).profiles,
            final(self).editing == old(self).editing,
            shows_quitting(*old(self)) ==> shows_quitting(*final(self)),
    {
        self.error = None;
        self.notice = None;
        self.busy = true;
        if !delivered {
            self.error = Some(String::from_str("The profile service stopped. Close and reopen the app."));
            self.busy = false;
        }
    }

    /// Replaces the password field: the password is hidden again.
    pub fn reset_password(&mut self)
        ensures
            *final(self) == (Ui { show_password: false, ..*old(self) }),
    {
        self.show_password = false;
    }

    /// Shows or hides the typed password.
    pub fn toggle_password(&mut self)
        ensures
            *final(self) == (Ui { show_password: !old(self).show_password, ..*old(self) }),
    {
        self.show_password = !self.show_password;
    }

    /// Opens the import screen, unless the window is locked or the worker is not ready.
    /// When it opens, the name, username and password fields are cleared.
    pub fn begin_import(&mut self) -> (opened: bool)
        ensures
            opened == (!is_locked(*old(self)) && old(self).ready),
            !opened ==> *final(self) == *old(self),
            opened ==> *final(self) == (Ui {
                page: Screen::Import,
                error: None,
                notice: None,
                confirm_remove: false,
                editing: None,
                file: None,
                show_password: false,
                ..*old(self)
            }),
    {
        if self.locked() || !self.ready {
            return false;
        }
        self.page = Screen::Import;
        self.error = None;
        self.notice = None;
        self.confirm_remove = false;
        self.editing = None;
        self.file = None;
        self.show_password = false;
        true
    }

    /// Opens the profile list, unless the worker is busy or the window is closing. When it
    /// opens, the username field shows the selected profile's username (returned).
    pub fn begin_profiles(&mut self) -> (username: Option<String>)
        ensures
            (old(self).busy || old(self).quitting) <==> username is None,
            username is None ==> *final(self) == *old(self),
            username matches Some(u) ==> {
                &&& u@ == match selected_profile(old(self).profiles) {
                    Some(p) => p.username@,
                    None => Seq::<char>::empty(),
                }
                &&& *final(self) == (Ui {
                    page: Screen::Profiles,
                    editing: None,
                    error: None,
                    notice: None,
                    confirm_remove: false,
                    show_password: false,
                    ..*old(self)
                })
            },
    {
        if self.busy || self.quitting {
            return None;
        }
        let username = match self.profiles.selected() {
            Some(p) => p.username.clone(),
            None => String::new(),
        };
        self.page = Screen::Profiles;
        self.editing = None;
        self.error = None;
        self.notice = None;
        self.confirm_remove = false;
        self.show_password = false;
        Some(username)
    }

    /// Opens the settings of a profile, unless the worker is busy, the window is closing or
    /// the profile is gone. When they open, the username field shows the profile's username
    /// (returned), and going back returns to the profile list when the settings were opened
    /// from it, else to the connection screen.
    pub fn begin_settings(&mut self, id: u128) -> (username: Option<String>)
        ensures
            (!old(self).busy && !old(self).quitting && has_id(old(self).profiles.profiles@, id)) <==> username
                is Some,
            username is None ==> *final(self) == *old(self),
            username matches Some(u) ==> {
                &&& u@ == old(self).profiles.profiles@[index_of(old(self).profiles.profiles@, id)->0].username@
                &&& *final(self) == (Ui {
                    editing: Some(id),
                    settings_return: if old(self).page == Screen::Profiles {
                        Screen::Profiles
                    } else {
                        Screen::Connection
                    },
                    page: Screen::ProfileSettings,
                    error: None,
                    notice: None,
                    confirm_remove: false,
                    show_password: false,
                    ..*old(self)
                })
            },
    {
        if self.busy || self.quitting {
            return None;
        }
        let index = match self.profiles.position(id) {
            Some(i) => i,
            None => return None,
        };
        let username = self.profiles.profiles[index].username.clone();
        self.editing = Some(id);
        self.settings_return = if self.page == Screen::Profiles {
            Screen::Profiles
        } else {
            Screen::Connection
        };
        self.page = Screen::ProfileSettings;
        self.error = None;
        self.notice = None;
        self.confirm_remove = false;
        self.show_password = false;
        Some(username)
    }

    /// Goes back, unless the worker is busy or the window is closing: from the settings to
    /// where they were opened from, from elsewhere to the connection screen.
    pub fn go_back(&mut self) -> (moved: bool)
        ensures
            moved == (!old(self).busy && !old(self).quitting),
            !moved ==> *final(self) == *old(self),
            moved ==> *final(self) == (Ui {
                page: if old(self).page == Screen::ProfileSettings {
                    old(self).settings_return
                } else {
                    Screen::Connection
                },
                editing: None,
                confirm_remove: false,
                error: None,
                notice: None,
                show_password: false,
                ..*old(self)
            }),
    {
        if self.busy || self.quitting {
            return false;
        }
        self.page = if self.page == Screen::ProfileSettings {
            self.settings_return
        } else {
            Screen::Connection
        };
        self.editing = None;
        self.confirm_remove = false;
        self.error = None;
        self.notice = None;
        self.show_password = false;
        true
    }

    /// Answers a click on the connect button: cancel a pending connection, disconnect an
    /// active one, or connect the selected profile when the worker is idle and ready.
    /// The state shown changes at once; the caller then sends the request.
    pub fn toggle(&mut self) -> (r: Toggle)
        ensures
            old(self).quitting ==> r == Toggle::Nothing && *final(self) == *old(self),
            !old(self).quitting && old(self).state == ConnectionState::Connecting ==> r
                == Toggle::CancelAndDisconnect,
            !old(self).quitting && old(self).state == ConnectionState::Connected && !old(self).busy ==> r
                == Toggle::Disconnect,
            !old(self).quitting && old(self).state != ConnectionState::Connecting && !(old(self).state
                == ConnectionState::Connected && !old(self).busy) ==> r == (if !old(self).busy
                && selected_profile(old(self).profiles) is Some && old(self).ready {
                Toggle::Connect
            } else {
                Toggle::Nothing
            }),
            r == Toggle::Nothing ==> *final(self) == *old(self),
            (r == Toggle::CancelAndDisconnect || r == Toggle::Disconnect) ==> *final(self) == (Ui {
                state: ConnectionState::Disconnecting,
                ..*old(self)
            }),
            r == Toggle::Connect ==> *final(self) == (Ui { state: ConnectionState::Connecting, ..*old(self) }),
            shows_quitting(*old(self)) ==> shows_quitting(*final(self)),
    {
        if self.quitting {
            return Toggle::Nothing;
        }
        if self.state == ConnectionState::Connecting {
            self.state = ConnectionState::Disconnecting;
            Toggle::CancelAndDisconnect
        } else if self.state == ConnectionState::Connected && !self.busy {
            self.state = ConnectionState::Disconnecting;
            Toggle::Disconnect
        } else if !self.busy && self.profiles.selected().is_some() && self.ready {
            self.state = ConnectionState::Connecting;
            Toggle::Connect
        } else {
            Toggle::Nothing
        }
    }

    /// Answers a request to close the window.
    pub fn request_quit(&mut self) -> (r: QuitStep)
        ensures
            old(self).quitting ==> r == QuitStep::Ignore && *final(self) == *old(self),
            !old(self).quitting && old(self).backend_stopped ==> r == QuitStep::QuitNow && *final(self)
                == *old(self),
            !old(self).quitting && !old(self).backend_stopped ==> r == QuitStep::Shutdown && *final(self)
                == (Ui {
                quitting: true,
                busy: true,
                error: None,
                notice: None,
                state: ConnectionState::Disconnecting,
                ..*old(self)
            }),
            shows_quitting(*old(self)) ==> shows_quitting(*final(self)),
    {
        if self.quitting {
            return QuitStep::Ignore;
        }
        if self.backend_stopped {
            return QuitStep::QuitNow;
        }
        self.quitting = true;
        self.busy = true;
        self.error = None;
        self.notice = None;
        self.state = ConnectionState::Disconnecting;
        QuitStep::Shutdown
    }

    /// Starts choosing a configuration file, unless the worker is busy or a choice is open.
    pub fn begin_pick(&mut self) -> (started: bool)
        ensures
            started == (!old(self).busy && !old(self).picking),
            !started ==> *final(self) == *old(self),
            started ==> *final(self) == (Ui { picking: true, ..*old(self) }),
    {
        if self.busy || self.picking {
            return false;
        }
        self.picking = true;
        true
    }

    /// Takes the outcome of choosing a configuration file.
    pub fn finish_pick(&mut self, outcome: PickOutcome)
        ensures
            final(self).picking == false,
            outcome matches PickOutcome::Chosen(p) ==> final(self).file == Some(p) && final(self).error is None,
            outcome matches PickOutcome::Dismissed ==> final(self).file == old(self).file
                && final(self).error == old(self).error,
            outcome matches PickOutcome::Failed ==> final(self).file == old(self).file && (final(self).error matches Some(
                m,
            ) && m@ == picker_failed_text()),
            final(self).state == old(self).state && final(self).quitting == old(self).quitting,
            final(self).page == old(self).page && final(self).busy == old(self).busy,
            final(self).profiles == old(self).profiles && final(self).notice == old(self).notice,
    {
        self.picking = false;
        match outcome {
            PickOutcome::Chosen(p) => {
                self.file = Some(p);
                self.error = None;
            },
            PickOutcome::Dismissed => {},
            PickOutcome::Failed => {
                self.error = Some(String::from_str(
                    "Could not open the file picker. Check that your desktop portal is running.",
                ));
            },
        }
    }

    /// Checks the import form. Nothing happens while the window is locked, a file choice is
    /// open, the worker is not ready or no file is chosen; a refused name or login is shown
    /// (the name's refusal first); otherwise the import request is returned. An empty
    /// username with an empty password means no saved login.
    pub fn import_request(&mut self, name: &str, username: &str, password: &str) -> (r: Option<VpnRequest>)
        ensures
            (is_locked(*old(self)) || old(self).picking || !old(self).ready || old(self).file is None) ==> r is None
                && *final(self) == *old(self),
            !(is_locked(*old(self)) || old(self).picking || !old(self).ready || old(self).file is None) ==> {
                let wants_login = !(trim(username@).len() == 0 && password@.len() == 0);
                let login = login_check(username@, password@, false);
                match import_refusal(old(self).profiles, name@, username@, password@) {
                    Some(e) => {
                        &&& r is None
                        &&& final(self).error matches Some(m) && m@ == profile_error_text(e)
                        &&& *final(self) == (Ui { error: final(self).error, ..*old(self) })
                    },
                    None => {
                        &&& *final(self) == *old(self)
                        &&& r matches Some(VpnRequest::Import { path, name: rn, credentials })
                        &&& path == old(self).file->0
                        &&& name_check(old(self).profiles.profiles@, name@) == Ok::<Seq<char>, ProfileError>(rn@)
                        &&& if wants_login {
                            credentials matches Some((u, p)) && login == Ok::<
                                (Seq<char>, Option<Seq<char>>),
                                ProfileError,
                            >((u@, Some(p@)))
                        } else {
                            credentials is None
                        }
                    },
                }
            },
    {
        if self.locked() || self.picking || !self.ready || self.file.is_none() {
            return None;
        }
        let path = self.file.as_ref().unwrap().clone();
        let checked_name = self.profiles.validate_name(name);
        let wants_login = !(trimmed(&chars_of(username)).len() == 0 && password.is_empty());
        let credentials: Result<Option<(String, String)>, ProfileError> = if !wants_login {
            Ok(None)
        } else {
            match validate_credentials(username, password, false) {
                Ok((u, Some(p))) => Ok(Some((u, p))),
                Ok((_, None)) => {
                    assert(false);
                    Err(ProfileError::PasswordRequired)
                },
                Err(e) => Err(e),
            }
        };
        match (checked_name, credentials) {
            (Ok(n), Ok(c)) => Some(VpnRequest::Import { path, name: n, credentials: c }),
            (Err(e), _) => {
                self.error = Some(e.message());
                None
            },
            (_, Err(e)) => {
                self.error = Some(e.message());
                None
            },
        }
    }

    /// Checks the login form of the open settings. Nothing happens while the window is
    /// locked or no profile's settings are open; a refused login is shown; otherwise the
    /// request that saves it is returned. An empty password keeps a saved one.
    pub fn login_request(&mut self, username: &str, password: &str) -> (r: Option<VpnRequest>)
        ensures
            (is_locked(*old(self)) || edited_profile(*old(self)) is None) ==> r is None && *final(self)
                == *old(self),
            !(is_locked(*old(self)) || edited_profile(*old(self)) is None) ==> {
                let p = edited_profile(*old(self))->0;
                match login_check(username@, password@, p.has_password) {
                    Err(e) => {
                        &&& r is None
                        &&& final(self).error matches Some(m) && m@ == profile_error_text(e)
                        &&& *final(self) == (Ui { error: final(self).error, notice: None, ..*old(self) })
                    },
                    Ok((u, pw)) => {
                        &&& *final(self) == (Ui { notice: None, ..*old(self) })
                        &&& r matches Some(VpnRequest::SaveCredentials { id, username: ru, password: rp })
                        &&& id == p.id
                        &&& ru@ == u
                        &&& match (rp, pw) {
                            (Some(a), Some(b)) => a@ == b,
                            (None, None) => true,
                            _ => false,
                        }
                    },
                }
            },
    {
        if self.locked() {
            return None;
        }
        let (id, has_password) = match self.editing_profile() {
            Some(p) => (p.id, p.has_password),
            None => return None,
        };
        let checked = validate_credentials(username, password, has_password);
        self.notice = None;
        match checked {
            Ok((u, p)) => Some(VpnRequest::SaveCredentials { id, username: u, password: p }),
            Err(e) => {
                self.error = Some(e.message());
                None
            },
        }
    }

    /// Answers the confirmed removal of the profile whose settings are open, unless the
    /// window is locked.
    pub fn removal_request(&mut self) -> (r: Option<VpnRequest>)
        ensures
            (is_locked(*old(self)) || old(self).editing is None) ==> r is None && *final(self) == *old(self),
            !is_locked(*old(self)) && old(self).editing is Some ==> {
                &&& r matches Some(VpnRequest::Remove(id)) && id == old(self).editing->0
                &&& *final(self) == (Ui { confirm_remove: false, ..*old(self) })
            },
    {
        if self.locked() {
            return None;
        }
        match self.editing {
            Some(id) => {
                self.confirm_remove = false;
                Some(VpnRequest::Remove(id))
            },
            None => None,
        }
    }

    /// Answers "use profile" on the profile list: the connection screen opens, and a
    /// profile that is not yet selected is selected, unless the window is locked.
    pub fn use_profile(&mut self, id: u128) -> (r: Option<VpnRequest>)
        ensures
            ({
                let selected = old(self).profiles.selected == Some(id);
                &&& !selected && is_locked(*old(self)) ==> r is None && *final(self) == *old(self)
                &&& selected ==> r is None && *final(self) == (Ui { page: Screen::Connection, ..*old(self) })
                &&& !selected && !is_locked(*old(self)) ==> (r matches Some(VpnRequest::Select(i)) && i == id)
                    && *final(self) == (Ui { page: Screen::Connection, ..*old(self) })
            }),
    {
        let selected = self.profiles.selected == Some(id);
        if !selected && self.locked() {
            return None;
        }
        self.page = Screen::Connection;
        if !selected {
            Some(VpnRequest::Select(id))
        } else {
            None
        }
    }

    /// Takes a new copy of the profile library from the worker.
    fn apply_profiles(&mut self, p: Profiles) -> (fx: Effects)
        ensures
            profiles_applied(*old(self), *final(self), p, fx),
    {
        let imported = self.busy && p.profiles.len() > self.profiles.profiles.len();
        let selection_changed = p.selected != self.profiles.selected;
        self.profiles = p;
        if selection_changed {
            self.timing = false;
            self.address = String::new();
            if !self.quitting {
                self.state = ConnectionState::Idle;
            }
        }
        let mut reset = false;
        let editing_gone = match self.editing {
            Some(id) => self.profiles.position(id).is_none(),
            None => false,
        };
        if editing_gone {
            self.editing = None;
            self.page = Screen::Profiles;
            self.show_password = false;
            reset = true;
        }
        if imported {
            self.page = Screen::Connection;
            self.file = None;
            self.show_password = false;
            reset = true;
        }
        Effects { reset_password: reset, quit: false }
    }

    /// Takes an event from the worker.
    #[verifier::rlimit(60)]
    pub fn apply(&mut self, event: VpnEvent) -> (fx: Effects)
        ensures
            shows_quitting(*old(self)) ==> shows_quitting(*final(self)) || event is ShutdownFailed,
            event matches VpnEvent::Status { state, address } ==> {
                &&& final(self).state == if old(self).quitting {
                    ConnectionState::Disconnecting
                } else {
                    state
                }
                &&& final(self).address == address
                &&& final(self).timing == (state == ConnectionState::Connected)
                &&& *final(self) == (Ui {
                    state: final(self).state,
                    address: final(self).address,
                    timing: final(self).timing,
                    ..*old(self)
                })
                &&& fx == (Effects { reset_password: false, quit: false })
            },
            event matches VpnEvent::Error(e) ==> *final(self) == (Ui { error: Some(e), ..*old(self) })
                && fx == (Effects { reset_password: false, quit: false }),
            event matches VpnEvent::Notice(n) ==> *final(self) == (Ui {
                notice: Some(n),
                show_password: false,
                ..*old(self)
            }) && fx == (Effects { reset_password: true, quit: false }),
            event matches VpnEvent::Busy(b) ==> *final(self) == (Ui { busy: b || old(self).quitting, ..*old(self) })
                && fx == (Effects { reset_password: false, quit: false }),
            event is Ready ==> *final(self) == (Ui { ready: true, ..*old(self) }) && fx == (Effects {
                reset_password: false,
                quit: false,
            }),
            event is ShutdownComplete ==> *final(self) == *old(self) && fx == (Effects {
                reset_password: false,
                quit: true,
            }),
            event matches VpnEvent::ShutdownFailed(e) ==> *final(self) == (Ui {
                quitting: false,
                busy: false,
                state: ConnectionState::Unavailable,
                error: Some(e),
                ..*old(self)
            }) && fx == (Effects { reset_password: false, quit: false }),
            event matches VpnEvent::Profiles(p) ==> profiles_applied(*old(self), *final(self), p, fx),
    {
        let quiet = Effects { reset_password: false, quit: false };
        match event {
            VpnEvent::Profiles(p) => self.apply_profiles(p),
            VpnEvent::Status { state, address } => {
                self.timing = state == ConnectionState::Connected;
                self.state = if self.quitting {
                    ConnectionState::Disconnecting
                } else {
                    state
                };
                self.address = address;
                quiet
            },
            VpnEvent::Error(e) => {
                self.error = Some(e);
                quiet
            },
            VpnEvent::Notice(n) => {
                self.notice = Some(n);
                self.show_password = false;
                Effects { reset_password: true, quit: false }
            },
            VpnEvent::Busy(b) => {
                self.busy = b || self.quitting;
                quiet
            },
            VpnEvent::Ready => {
                self.ready = true;
                quiet
            },
            VpnEvent::ShutdownComplete => Effects { reset_password: false, quit: true },
            VpnEvent::ShutdownFailed(e) => {
                self.quitting = false;
                self.busy = false;
                self.state = ConnectionState::Unavailable;
                self.error = Some(e);
                quiet
            },
        }
    }

    /// Takes the loss of the worker: the window can no longer act. A closing window closes;
    /// otherwise the connection shows as unavailable, with a message unless one is shown.
    pub fn worker_stopped(&mut self) -> (quit: bool)
        ensures
            quit == old(self).quitting,
            final(self).backend_stopped && !final(self).ready && !final(self).busy,
            old(self).quitting ==> *final(self) == (Ui {
                backend_stopped: true,
                ready: false,
                busy: false,
                ..*old(self)
            }),
            !old(self).quitting ==> {
                &&& final(self).state == ConnectionState::Unavailable
                &&& old(self).error is Some ==> final(self).error == old(self).error
                &&& old(self).error is None ==> (final(self).error matches Some(m) && m@ == connection_service_stopped_text())
                &&& *final(self) == (Ui {
                    backend_stopped: true,
                    ready: false,
                    busy: false,
                    state: ConnectionState::Unavailable,
                    error: final(self).error,
                    ..*old(self)
                })
            },
    {
        self.backend_stopped = true;
        self.ready = false;
        self.busy = false;
        if self.quitting {
            return true;
        }
        self.state = ConnectionState::Unavailable;
        if self.error.is_none() {
            self.error = Some(String::from_str("The connection service stopped. Close and reopen the app."));
        }
        false
    }
}

} // verus!
