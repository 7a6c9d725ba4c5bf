//! The decisions around connecting, saving a login, importing and removing a profile.
use vstd::prelude::*;
use crate::commands::{Command, activation, activate, texts};
use crate::disconnect::{DisconnectError, disconnect_error_text, has_line, listed};
use crate::ids::uuid_string;
use crate::paths::{credentials_file, credentials_path};
use crate::profile::{
    Profile, ProfileError, Profiles, has_id, index_of, login_check, selected_profile, validate_credentials,
};
use crate::text::{chars_eq, chars_of};

verus! {

/// Why a connection attempt failed.
#[derive(Debug, PartialEq, Eq)]
pub enum ConnectError {
    /// Activation failed, and deactivating the half-activated connection failed too.
    CleanupFailed(DisconnectError),
    /// Activation failed with this message.
    Failed(String),
}

/// The message shown for a failed connection attempt.
pub open spec fn connect_error_text(e: ConnectError) -> Seq<char> {
    match e {
        ConnectError::CleanupFailed(d) => "The connection failed and VPN cleanup needs another attempt: "@
            + disconnect_error_text(d),
        ConnectError::Failed(m) => "Connection failed. If credentials are required, check your desktop's VPN authentication prompt.: "@
            + m@,
    }
}

impl ConnectError {
    /// The message shown for this failure.
    pub fn message(&self) -> (r: String)
        ensures
            r@ == connect_error_text(*self),
    {
        match self {
            ConnectError::CleanupFailed(d) => String::from_str(
                "The connection failed and VPN cleanup needs another attempt: ",
            ).concat(d.message().as_str()),
            ConnectError::Failed(m) => String::from_str(
                "Connection failed. If credentials are required, check your desktop's VPN authentication prompt.: ",
            ).concat(m.as_str()),
        }
    }
}

/// The profile to connect with: the selected one.
pub fn connect_target(store: &Profiles) -> (r: Result<&Profile, ProfileError>)
    ensures
        match r {
            Ok(p) => selected_profile(*store) == Some(*p),
            Err(e) => selected_profile(*store) is None && e == ProfileError::NoProfile,
        },
{
    match store.selected() {
        Some(p) => Ok(p),
        None => Err(ProfileError::NoProfile),
    }
}

/// Where a connection request starts: a request cancelled before it began does nothing
/// (`Ok(None)`); otherwise it connects the selected profile, and without one it fails.
pub fn connect_start(store: &Profiles, cancelled: bool) -> (r: Result<Option<&Profile>, ProfileError>)
    ensures
        cancelled ==> r matches Ok(None),
        !cancelled ==> match r {
            Ok(Some(p)) => selected_profile(*store) == Some(*p),
            Ok(None) => false,
            Err(e) => selected_profile(*store) is None && e == ProfileError::NoProfile,
        },
{
    if cancelled {
        return Ok(None);
    }
    match connect_target(store) {
        Ok(p) => Ok(Some(p)),
        Err(e) => Err(e),
    }
}

/// The command that activates a profile: with its saved password file when the profile
/// has a saved password and the file exists, else relying on the desktop's prompt.
pub fn activation_for(profile: &Profile, root: &str, saved_file_present: bool) -> (c: Command)
    ensures
        texts(c.args@) == activation(
            profile.nm_uuid,
            if profile.has_password && saved_file_present {
                Some(credentials_file(root@, profile.id))
            } else {
                None
            },
        ),
        c.limit == 95,
{
    if profile.has_password && saved_file_present {
        let file = credentials_path(root, profile.id);
        activate(profile.nm_uuid, Some(file.as_str()))
    } else {
        activate(profile.nm_uuid, None)
    }
}

/// The outcome of a connection attempt, from the activation's reply, the outcome of the
/// deactivation that follows a failed activation, and whether the attempt was cancelled.
pub open spec fn connect_result(
    up: Result<String, String>,
    cleanup: Option<Result<(), DisconnectError>>,
    cancelled: bool,
) -> Result<(), ConnectError> {
    match up {
        Ok(_) => Ok(()),
        Err(m) => match cleanup {
            Some(Err(e)) => Err(ConnectError::CleanupFailed(e)),
            _ => if cancelled {
                Ok(())
            } else {
                Err(ConnectError::Failed(m))
            },
        },
    }
}

/// Decides how a connection attempt ended. A cancelled attempt whose connection was torn
/// down is a success; a failed one is reported with its cause.
pub fn connect_outcome(
    up: Result<String, String>,
    cleanup: Option<Result<(), DisconnectError>>,
    cancelled: bool,
) -> (r: Result<(), ConnectError>)
    ensures
        r == connect_result(up, cleanup, cancelled),
{
    match up {
        Ok(_) => Ok(()),
        Err(m) => match cleanup {
            Some(Err(e)) => Err(ConnectError::CleanupFailed(e)),
            _ => if cancelled {
                Ok(())
            } else {
                Err(ConnectError::Failed(m))
            },
        },
    }
}

/// Whether a connection state from `nmcli` counts as inactive: no state, or `deactivated`.
pub open spec fn inactive_state(state: Seq<char>) -> bool {
    state.len() == 0 || state == "deactivated"@
}

/// Whether a connection state from `nmcli` counts as inactive.
pub fn is_inactive(state: &str) -> (r: bool)
    ensures
        r == inactive_state(state@),
{
    let s = chars_of(state);
    s.len() == 0 || chars_eq(&s, &chars_of("deactivated"))
}

/// Whether a listing of connection UUIDs has a line that is exactly this connection's UUID.
pub fn lists_connection(listing: &str, id: u128) -> (r: bool)
    ensures
        r == listed(listing@, id),
{
    has_line(listing, &chars_of(uuid_string(id).as_str()))
}

/// Whether a profile whose connection is in this state may be removed.
pub fn removal_check(state: &str) -> (r: Result<(), ProfileError>)
    ensures
        inactive_state(state@) <==> r is Ok,
        r matches Err(e) ==> e == ProfileError::StillConnected,
{
    if is_inactive(state) {
        Ok(())
    } else {
        Err(ProfileError::StillConnected)
    }
}

/// Checks the login given with a new profile: none, or a username and a password that
/// pass the login rules (a new profile has no saved password to keep).
pub fn import_login(login: Option<(String, String)>) -> (r: Result<Option<(String, String)>, ProfileError>)
    ensures
        match login {
            None => r == Ok::<Option<(String, String)>, ProfileError>(None),
            Some((u, p)) => match (r, login_check(u@, p@, false)) {
                (Ok(Some((ru, rp))), Ok((su, Some(sp)))) => ru@ == su && rp@ == sp,
                (Err(e), Err(se)) => e == se,
                _ => false,
            },
        },
{
    match login {
        None => Ok(None),
        Some((username, password)) => match validate_credentials(username.as_str(), password.as_str(), false) {
            Ok((u, Some(p))) => Ok(Some((u, p))),
            Ok((_, None)) => {
                // Without a saved password, an accepted login always carries a password.
                assert(false);
                Err(ProfileError::PasswordRequired)
            },
            Err(e) => Err(e),
        },
    }
}

/// The profile and checked login of a login-saving request: the profile must be in the
/// library, and an empty password keeps its saved one.
pub fn login_request(store: &Profiles, id: u128, username: &str, password: Option<&str>) -> (r: Result<
    (Profile, String, Option<String>),
    ProfileError,
>)
    ensures
        !has_id(store.profiles@, id) ==> r == Err::<(Profile, String, Option<String>), ProfileError>(
            ProfileError::ProfileMissing,
        ),
        has_id(store.profiles@, id) ==> {
            let p = store.profiles@[index_of(store.profiles@, id)->0];
            let pw = match password {
                Some(s) => s@,
                None => Seq::<char>::empty(),
            };
            match (r, login_check(username@, pw, p.has_password)) {
                (Ok((rp, ru, rpw)), Ok((su, spw))) => rp == p && ru@ == su && match (rpw, spw) {
                    (Some(a), Some(b)) => a@ == b,
                    (None, None) => true,
                    _ => false,
                },
                (Err(e), Err(se)) => e == se,
                _ => false,
            }
        },
{
    let index = match store.position(id) {
        Some(i) => i,
        None => return Err(ProfileError::ProfileMissing),
    };
    let profile = store.profiles[index].duplicate();
    let pw = match password {
        Some(s) => s,
        None => "",
    };
    proof {
        reveal_strlit("");
    }
    match validate_credentials(username, pw, profile.has_password) {
        Ok((u, p)) => Ok((profile, u, p)),
        Err(e) => Err(e),
    }
}

} // verus!
