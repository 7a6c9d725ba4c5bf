//! The multi-step library changes: importing a profile, saving a login and removing a
//! profile.
//!
//! Each flow says what to do next; the caller does it (runs the command, writes the file,
//! saves the library) and reports back. The library held by the caller changes only when a
//! flow finishes successfully, with the library the flow hands back.
use vstd::prelude::*;
use crate::commands::{
    Command, deletion, delete_connection, import_config, import_of, import_rollback, name_connection, naming,
    query_state, restrict_to_user, roll_back_import, saved_listing, list_saved, set_username, state_query,
    texts, user_restriction, username_setting,
};
use crate::disconnect::listed;
use crate::text::trim;
use crate::nmcli::{import_id_of, parse_import_uuid};
use crate::paths::{config_file, config_path, credentials_file, credentials_path, profile_dir, profile_dir_path};
use crate::profile::{
    Profile, ProfileError, Profiles, has_id, index_of, login_check, name_check, password_file,
    password_file_text, without_id,
};
use crate::session::{import_login, inactive_state, is_inactive, lists_connection, login_request};

verus! {

/// What a flow asks the caller to do next.
#[derive(Debug)]
pub enum FlowAction {
    /// Bundle the configuration file `source` into the directory `destination`, and report
    /// the server and protocol summary.
    Bundle { source: String, destination: String },
    /// Run this `nmcli` command and report its output.
    Run(Command),
    /// Create the private directory `directory` and write `text` to the private file `path`.
    WritePassword { directory: String, path: String, text: String },
    /// Save this library to disk.
    SaveLibrary(Profiles),
    /// Remove the directory and everything in it.
    RemoveDir(String),
    /// Keep this library from now on, then remove the directory and everything in it
    /// (a directory that is already gone counts as removed).
    CommitThenRemove { library: Profiles, directory: String },
    /// The flow is over: the new library, or the message of the failure.
    Finish(Result<Profiles, String>),
}

/// Whether two libraries hold the same profiles and selection.
pub open spec fn same_library(a: Profiles, b: Profiles) -> bool {
    a.profiles@ == b.profiles@ && a.selected == b.selected
}

/// The message shown when `nmcli connection import` names no connection.
pub open spec fn no_import_id_text() -> Seq<char> {
    "NetworkManager did not return an imported connection ID"@
}

/// Where an import stands.
#[derive(Debug, PartialEq, Eq, Clone, Copy, Structural)]
pub enum ImportPhase {
    Bundling,
    Importing,
    Naming,
    Restricting,
    SettingUsername,
    SavingPassword,
    SavingLibrary,
    /// Deleting the connection created before the failure.
    RollingBack,
    /// Removing the profile's files after the failure.
    RemovingFiles,
    Finished,
}

/// An import of a configuration file as a new profile.
pub struct ImportFlow {
    pub phase: ImportPhase,
    /// The library before the import.
    pub store: Profiles,
    pub root: String,
    /// The new profile's id.
    pub id: u128,
    pub name: String,
    /// The login to save with the profile: username and password.
    pub login: Option<(String, String)>,
    /// The desktop user to restrict the connection to, when known.
    pub user: Option<String>,
    /// The profile's private directory.
    pub destination: String,
    pub remote: String,
    pub protocol: String,
    /// The connection created by NetworkManager, once there is one.
    pub created: Option<u128>,
    /// The message of the failure being rolled back.
    pub failure: String,
}

/// The parts of an import that stay as they are from start to finish.
pub open spec fn same_import(a: ImportFlow, b: ImportFlow) -> bool {
    &&& a.store == b.store
    &&& a.root == b.root
    &&& a.id == b.id
    &&& a.name == b.name
    &&& a.login == b.login
    &&& a.user == b.user
    &&& a.destination == b.destination
}

/// Whether `p` is the profile that the import `f`, having created connection `nm`, adds.
pub open spec fn imported_as(p: Profile, f: ImportFlow, nm: u128) -> bool {
    &&& p.id == f.id
    &&& p.nm_uuid == nm
    &&& p.name == f.name
    &&& p.remote == f.remote
    &&& p.protocol == f.protocol
    &&& p.username@ == match f.login {
        Some((u, _)) => u@,
        None => Seq::<char>::empty(),
    }
    &&& p.has_password == f.login is Some
}

/// Whether `next` is the library `f.store` with the imported profile added and selected.
pub open spec fn library_after_import(next: Profiles, f: ImportFlow, nm: u128) -> bool {
    &&& next.profiles@.len() == f.store.profiles@.len() + 1
    &&& next.profiles@.drop_last() == f.store.profiles@
    &&& imported_as(next.profiles@.last(), f, nm)
    &&& next.selected == Some(f.id)
}

/// Whether the flow, after failing with message `m`, rolls back: it deletes the created
/// connection first, if there is one, and otherwise removes the profile's files.
pub open spec fn fails_with(old: ImportFlow, new: ImportFlow, a: FlowAction, m: Seq<char>) -> bool {
    &&& same_import(old, new)
    &&& new.created == old.created
    &&& new.remote == old.remote
    &&& new.protocol == old.protocol
    &&& new.failure@ == m
    &&& match old.created {
        Some(nm) => new.phase == ImportPhase::RollingBack && (a matches FlowAction::Run(c) && (texts(c.args@)
            == import_rollback(nm) && c.limit == 10)),
        None => new.phase == ImportPhase::RemovingFiles && (a matches FlowAction::RemoveDir(d) && (d
            == old.destination)),
    }
}

/// Whether the flow moved on to `phase` and runs a command with these arguments and limit.
pub open spec fn runs(old: ImportFlow, new: ImportFlow, a: FlowAction, phase: ImportPhase, args: Seq<Seq<char>>, limit: u64) -> bool {
    &&& same_import(old, new)
    &&& new.created == old.created
    &&& new.remote == old.remote
    &&& new.protocol == old.protocol
    &&& new.phase == phase
    &&& (a matches FlowAction::Run(c) && (texts(c.args@) == args && c.limit == limit))
}

/// What follows once the connection `nm` is named (and restricted to the user, when known):
/// storing the username, or, without a login, saving the library with the new profile.
pub open spec fn after_naming(old: ImportFlow, new: ImportFlow, a: FlowAction, nm: u128) -> bool {
    match old.login {
        Some((u, _)) => runs(old, new, a, ImportPhase::SettingUsername, username_setting(nm, u@), 10),
        None => {
            &&& same_import(old, new)
            &&& new.created == old.created
            &&& new.remote == old.remote
            &&& new.protocol == old.protocol
            &&& new.phase == ImportPhase::SavingLibrary
            &&& (a matches FlowAction::SaveLibrary(next) && library_after_import(next, old, nm))
        },
    }
}

/// How an import starts: from library `store`, under `root`, importing `source` as `name`
/// with `login` for `user`, the new profile taking `id`; the flow `f` asks for `a`.
pub open spec fn import_started(
    store: Profiles,
    root: Seq<char>,
    source: Seq<char>,
    name: Seq<char>,
    login: Option<(String, String)>,
    user: Option<String>,
    id: u128,
    f: ImportFlow,
    a: FlowAction,
) -> bool {
    &&& name_check(store.profiles@, name) == Ok::<Seq<char>, ProfileError>(f.name@)
    &&& match (login, f.login) {
        (None, None) => true,
        (Some((u, p)), Some((fu, fp))) => login_check(u@, p@, false) == Ok::<
            (Seq<char>, Option<Seq<char>>),
            ProfileError,
        >((fu@, Some(fp@))),
        _ => false,
    }
    &&& f.phase == ImportPhase::Bundling
    &&& f.store.profiles@ == store.profiles@ && f.store.selected == store.selected
    &&& f.root@ == root && f.id == id && f.user == user
    &&& f.destination@ == profile_dir(root, id)
    &&& f.created is None
    &&& f.remote@.len() == 0 && f.protocol@.len() == 0
    &&& (a matches FlowAction::Bundle { source: s, destination: d } && (s@ == source && d == f.destination))
}

/// The bundling step of an import: from `old`, given the server and protocol summary or the
/// failure, to `new`, asking for `a`.
pub open spec fn bundle_step(old: ImportFlow, new: ImportFlow, outcome: Result<(String, String), String>, a: FlowAction) -> bool {
    &&& outcome matches Err(m) ==> fails_with(old, new, a, m@)
    &&& outcome matches Ok((remote, protocol)) ==> {
        &&& new.remote == remote && new.protocol == protocol
        &&& same_import(old, new) && new.created == old.created
        &&& new.phase == ImportPhase::Importing
        &&& (a matches FlowAction::Run(c) && (texts(c.args@) == import_of(config_file(old.destination@)) && c.limit
            == 25))
    }
}

/// One step of an import: from `old`, after `reply` to its last action, to `new`, asking
/// for `a`.
pub open spec fn import_step(old: ImportFlow, new: ImportFlow, reply: Result<String, String>, a: FlowAction) -> bool {
    // What no step changes.
    &&& same_import(old, new)
    &&& new.remote == old.remote && new.protocol == old.protocol
    &&& old.phase != ImportPhase::Importing ==> new.created == old.created
    &&& (old.phase == ImportPhase::RollingBack || old.phase == ImportPhase::RemovingFiles) ==> new.failure
        == old.failure
    // Where the flow can stand.
    &&& new.phase == ImportPhase::SettingUsername || new.phase == ImportPhase::SavingPassword ==> new.login is Some
    &&& new.phase != ImportPhase::Bundling
    &&& new.phase == ImportPhase::Importing ==> new.created is None
    &&& new.phase != ImportPhase::Importing && new.phase != ImportPhase::RemovingFiles && new.phase
        != ImportPhase::Finished ==> new.created is Some
    // Failures before the import finishes roll back.
    &&& old.phase != ImportPhase::RollingBack && old.phase != ImportPhase::RemovingFiles ==> (reply matches Err(m)
        ==> fails_with(old, new, a, m@))
    &&& old.phase == ImportPhase::Importing ==> (reply matches Ok(out) ==> match import_id_of(out@) {
        None => fails_with(old, new, a, no_import_id_text()),
        Some(nm) => {
            &&& new.created == Some(nm)
            &&& runs(old, ImportFlow { created: old.created, ..new }, a, ImportPhase::Naming, naming(nm, old.name@), 10)
        },
    })
    &&& old.phase == ImportPhase::Naming && reply is Ok ==> match old.user {
        Some(u) => runs(old, new, a, ImportPhase::Restricting, user_restriction(old.created->0, u@), 10),
        None => after_naming(old, new, a, old.created->0),
    }
    &&& old.phase == ImportPhase::Restricting && reply is Ok ==> after_naming(old, new, a, old.created->0)
    &&& old.phase == ImportPhase::SettingUsername && reply is Ok ==> {
        &&& same_import(old, new) && new.created == old.created
        &&& new.remote == old.remote && new.protocol == old.protocol
        &&& new.phase == ImportPhase::SavingPassword
        &&& (a matches FlowAction::WritePassword { directory, path, text } && (directory == old.destination
            && path@ == credentials_file(old.root@, old.id) && (old.login matches Some((_, p)) && text@
            == password_file(p@))))
    }
    &&& old.phase == ImportPhase::SavingPassword && reply is Ok ==> {
        &&& same_import(old, new) && new.created == old.created
        &&& new.remote == old.remote && new.protocol == old.protocol
        &&& new.phase == ImportPhase::SavingLibrary
        &&& (a matches FlowAction::SaveLibrary(next) && library_after_import(next, old, old.created->0))
    }
    // The library changes only when the saved library is confirmed.
    &&& old.phase == ImportPhase::SavingLibrary && reply is Ok ==> new.phase == ImportPhase::Finished && (a matches FlowAction::Finish(
        Ok(next),
    ) && library_after_import(next, old, old.created->0))
    // A rollback that deleted the connection removes the files; a failed one keeps them.
    &&& old.phase == ImportPhase::RollingBack ==> match reply {
        Ok(_) => new.phase == ImportPhase::RemovingFiles && (a matches FlowAction::RemoveDir(d) && d
            == old.destination),
        Err(_) => new.phase == ImportPhase::Finished && (a matches FlowAction::Finish(Err(m)) && m == old.failure),
    }
    &&& old.phase == ImportPhase::RemovingFiles ==> new.phase == ImportPhase::Finished && (a matches FlowAction::Finish(
        Err(m),
    ) && m == old.failure)
    &&& a matches FlowAction::Finish(Ok(_)) ==> old.phase == ImportPhase::SavingLibrary && reply is Ok
}

impl ImportFlow {
    /// Starts importing the configuration `source` as a profile named `name`, with `id` as
    /// the new profile's id. The name is checked first, then the login; the first step
    /// bundles the configuration into the profile's private directory.
    pub fn start(
        store: &Profiles,
        root: &str,
        source: &str,
        name: &str,
        login: Option<(String, String)>,
        user: Option<String>,
        id: u128,
    ) -> (r: Result<(ImportFlow, FlowAction), ProfileError>)
        ensures
            name_check(store.profiles@, name@) matches Err(e) ==> r == Err::<(ImportFlow, FlowAction), ProfileError>(e),
            name_check(store.profiles@, name@) is Ok ==> (login matches Some((u, p)) ==> (login_check(
                u@,
                p@,
                false,
            ) matches Err(e) ==> r == Err::<(ImportFlow, FlowAction), ProfileError>(e))),
            r matches Ok((f, a)) ==> import_started(*store, root@, source@, name@, login, user, id, f, a),
            r is Ok <==> (name_check(store.profiles@, name@) is Ok && match login {
                Some((u, p)) => login_check(u@, p@, false) is Ok,
                None => true,
            }),
    {
        let checked = match store.validate_name(name) {
            Ok(n) => n,
            Err(e) => return Err(e),
        };
        let login = match import_login(login) {
            Ok(l) => l,
            Err(e) => return Err(e),
        };
        let destination = profile_dir_path(root, id);
        let flow = ImportFlow {
            phase: ImportPhase::Bundling,
            store: store.duplicate(),
            root: String::from_str(root),
            id,
            name: checked,
            login,
            user,
            destination: destination.clone(),
            remote: String::new(),
            protocol: String::new(),
            created: None,
            failure: String::new(),
        };
        Ok((flow, FlowAction::Bundle { source: String::from_str(source), destination }))
    }

    /// Moves to rolling back after a failure with message `m`.
    fn fail(&mut self, m: String) -> (a: FlowAction)
        ensures
            fails_with(*old(self), *final(self), a, m@),
    {
        self.failure = m;
        match self.created {
            Some(nm) => {
                self.phase = ImportPhase::RollingBack;
                FlowAction::Run(roll_back_import(nm))
            },
            None => {
                self.phase = ImportPhase::RemovingFiles;
                FlowAction::RemoveDir(self.destination.clone())
            },
        }
    }

    /// The library with the imported profile, whose connection is `nm`.
    fn next_library(&self, nm: u128) -> (next: Profiles)
        ensures
            library_after_import(next, *self, nm),
    {
        let username = match &self.login {
            Some((u, _)) => Some(u.clone()),
            None => None,
        };
        let profile = Profile {
            id: self.id,
            nm_uuid: nm,
            name: self.name.clone(),
            remote: self.remote.clone(),
            protocol: self.protocol.clone(),
            username: match username {
                Some(u) => u,
                None => String::new(),
            },
            has_password: self.login.is_some(),
        };
        let next = self.store.adding(profile);
        assert(next.profiles@.drop_last() =~= self.store.profiles@);
        next
    }

    /// What follows once the connection `nm` is named and, when the user is known,
    /// restricted to that user.
    fn after_naming(&mut self, nm: u128) -> (a: FlowAction)
        ensures
            after_naming(*old(self), *final(self), a, nm),
    {
        match &self.login {
            Some((u, _)) => {
                let c = set_username(nm, u.as_str());
                self.phase = ImportPhase::SettingUsername;
                FlowAction::Run(c)
            },
            None => {
                let next = self.next_library(nm);
                self.phase = ImportPhase::SavingLibrary;
                FlowAction::SaveLibrary(next)
            },
        }
    }

    /// Takes the outcome of bundling: the server and protocol summary, or the failure.
    pub fn bundled(&mut self, outcome: Result<(String, String), String>) -> (a: FlowAction)
        requires
            old(self).phase == ImportPhase::Bundling,
            old(self).created is None,
        ensures
            bundle_step(*old(self), *final(self), outcome, a),
    {
        match outcome {
            Err(m) => self.fail(m),
            Ok((remote, protocol)) => {
                self.remote = remote;
                self.protocol = protocol;
                self.phase = ImportPhase::Importing;
                let config = config_path(self.destination.as_str());
                FlowAction::Run(import_config(config.as_str()))
            },
        }
    }

    /// Takes the outcome of the last step: the command's output or the message of its failure.
    pub fn advance(&mut self, reply: Result<String, String>) -> (a: FlowAction)
        requires
            old(self).phase != ImportPhase::Bundling,
            old(self).phase != ImportPhase::Finished,
            old(self).phase == ImportPhase::Importing ==> old(self).created is None,
            old(self).phase != ImportPhase::Importing && old(self).phase != ImportPhase::RemovingFiles
                ==> old(self).created is Some,
            old(self).phase == ImportPhase::SettingUsername || old(self).phase == ImportPhase::SavingPassword
                ==> old(self).login is Some,
        ensures
            import_step(*old(self), *final(self), reply, a),
    {
        match self.phase {
            ImportPhase::RollingBack => {
                match reply {
                    Ok(_) => {
                        self.phase = ImportPhase::RemovingFiles;
                        FlowAction::RemoveDir(self.destination.clone())
                    },
                    Err(_) => {
                        self.phase = ImportPhase::Finished;
                        FlowAction::Finish(Err(self.failure.clone()))
                    },
                }
            },
            ImportPhase::RemovingFiles => {
                self.phase = ImportPhase::Finished;
                FlowAction::Finish(Err(self.failure.clone()))
            },
            _ => {
                let out = match reply {
                    Ok(out) => out,
                    Err(m) => return self.fail(m),
                };
                match self.phase {
                    ImportPhase::Importing => match parse_import_uuid(out.as_str()) {
                        None => self.fail(
                            String::from_str("NetworkManager did not return an imported connection ID"),
                        ),
                        Some(nm) => {
                            self.created = Some(nm);
                            self.phase = ImportPhase::Naming;
                            FlowAction::Run(name_connection(nm, self.name.as_str()))
                        },
                    },
                    ImportPhase::Naming => {
                        let nm = self.created.unwrap();
                        match &self.user {
                            Some(u) => {
                                let c = restrict_to_user(nm, u.as_str());
                                self.phase = ImportPhase::Restricting;
                                FlowAction::Run(c)
                            },
                            None => self.after_naming(nm),
                        }
                    },
                    ImportPhase::Restricting => {
                        let nm = self.created.unwrap();
                        self.after_naming(nm)
                    },
                    ImportPhase::SettingUsername => {
                        let text = match &self.login {
                            Some((_, p)) => password_file_text(p.as_str()),
                            None => String::new(),
                        };
                        let path = credentials_path(self.root.as_str(), self.id);
                        self.phase = ImportPhase::SavingPassword;
                        FlowAction::WritePassword { directory: self.destination.clone(), path, text }
                    },
                    ImportPhase::SavingPassword => {
                        let next = self.next_library(self.created.unwrap());
                        self.phase = ImportPhase::SavingLibrary;
                        FlowAction::SaveLibrary(next)
                    },
                    _ => {
                        let next = self.next_library(self.created.unwrap());
                        self.phase = ImportPhase::Finished;
                        FlowAction::Finish(Ok(next))
                    },
                }
            },
        }
    }
}

/// Where a login-saving flow stands.
#[derive(Debug, PartialEq, Eq, Clone, Copy, Structural)]
pub enum LoginPhase {
    SettingUsername,
    SavingPassword,
    SavingLibrary,
    Finished,
}

/// Saving a login with a profile.
pub struct LoginFlow {
    pub phase: LoginPhase,
    /// The library after the login is saved.
    pub next: Profiles,
    pub root: String,
    /// The profile as it was before.
    pub profile: Profile,
    pub username: String,
    /// The new password, or none to keep the saved one.
    pub password: Option<String>,
}

impl LoginFlow {
    /// Starts saving a login for the profile `id`: the profile must be in the library and the
    /// login must pass the login rules (an empty password keeps a saved one). The first step
    /// stores the username in the connection.
    pub fn start(store: &Profiles, root: &str, id: u128, username: &str, password: Option<&str>) -> (r: Result<
        (LoginFlow, FlowAction),
        ProfileError,
    >)
        ensures
            !has_id(store.profiles@, id) ==> (r matches Err(e) && e == ProfileError::ProfileMissing),
            has_id(store.profiles@, id) ==> {
                let p = store.profiles@[index_of(store.profiles@, id)->0];
                let pw = match password {
                    Some(s) => s@,
                    None => Seq::<char>::empty(),
                };
                match (r, login_check(username@, pw, p.has_password)) {
                    (Ok((f, a)), Ok((su, spw))) => {
                        &&& f.phase == LoginPhase::SettingUsername
                        &&& f.profile == p && f.username@ == su && f.root@ == root@
                        &&& match (f.password, spw) {
                            (Some(x), Some(y)) => x@ == y,
                            (None, None) => true,
                            _ => false,
                        }
                        &&& f.next.selected == store.selected
                        &&& f.next.profiles@ == store.profiles@.update(
                            index_of(store.profiles@, id)->0,
                            (Profile { username: f.username, has_password: true, ..p }),
                        )
                        &&& (a matches FlowAction::Run(c) && (texts(c.args@) == username_setting(p.nm_uuid, su)
                            && c.limit == 10))
                    },
                    (Err(e), Err(se)) => e == se,
                    _ => false,
                }
            },
    {
        let (profile, u, p) = match login_request(store, id, username, password) {
            Ok(x) => x,
            Err(e) => return Err(e),
        };
        let next = match store.with_login(id, u.clone()) {
            Ok(n) => n,
            Err(e) => return Err(e),
        };
        let c = set_username(profile.nm_uuid, u.as_str());
        Ok((
            LoginFlow { phase: LoginPhase::SettingUsername, next, root: String::from_str(root), profile, username: u, password: p },
            FlowAction::Run(c),
        ))
    }

    /// Takes the outcome of the last step.
    pub fn advance(&mut self, reply: Result<String, String>) -> (a: FlowAction)
        requires
            old(self).phase != LoginPhase::Finished,
        ensures
            final(self).next == old(self).next && final(self).profile == old(self).profile,
            final(self).root == old(self).root && final(self).password == old(self).password,
            reply matches Err(m) ==> final(self).phase == LoginPhase::Finished && (a matches FlowAction::Finish(
                Err(e),
            ) && e == m),
            old(self).phase == LoginPhase::SettingUsername && reply is Ok ==> match old(self).password {
                Some(p) => final(self).phase == LoginPhase::SavingPassword && (a matches FlowAction::WritePassword {
                    directory,
                    path,
                    text,
                } && (directory@ == profile_dir(old(self).root@, old(self).profile.id) && path@
                    == credentials_file(old(self).root@, old(self).profile.id) && text@ == password_file(p@))),
                None => final(self).phase == LoginPhase::SavingLibrary && (a matches FlowAction::SaveLibrary(n)
                    && same_library(n, old(self).next)),
            },
            old(self).phase == LoginPhase::SavingPassword && reply is Ok ==> final(self).phase
                == LoginPhase::SavingLibrary && (a matches FlowAction::SaveLibrary(n) && same_library(n, old(self).next)),
            old(self).phase == LoginPhase::SavingLibrary && reply is Ok ==> final(self).phase
                == LoginPhase::Finished && (a matches FlowAction::Finish(Ok(n)) && same_library(n, old(self).next)),
            // The library is handed back only once it is saved.
            a matches FlowAction::Finish(Ok(_)) ==> old(self).phase == LoginPhase::SavingLibrary && reply is Ok,
    {
        if let Err(m) = reply {
            self.phase = LoginPhase::Finished;
            return FlowAction::Finish(Err(m));
        }
        match self.phase {
            LoginPhase::SettingUsername => match &self.password {
                Some(p) => {
                    let text = password_file_text(p.as_str());
                    self.phase = LoginPhase::SavingPassword;
                    FlowAction::WritePassword {
                        directory: profile_dir_path(self.root.as_str(), self.profile.id),
                        path: credentials_path(self.root.as_str(), self.profile.id),
                        text,
                    }
                },
                None => {
                    self.phase = LoginPhase::SavingLibrary;
                    FlowAction::SaveLibrary(self.next.duplicate())
                },
            },
            LoginPhase::SavingPassword => {
                self.phase = LoginPhase::SavingLibrary;
                FlowAction::SaveLibrary(self.next.duplicate())
            },
            _ => {
                self.phase = LoginPhase::Finished;
                FlowAction::Finish(Ok(self.next.duplicate()))
            },
        }
    }
}

/// The message shown after a login is saved.
pub fn login_saved_notice() -> (r: String)
    ensures
        r@ == "Saved login details for this profile."@,
{
    String::from_str("Saved login details for this profile.")
}

/// Where a removal stands.
#[derive(Debug, PartialEq, Eq, Clone, Copy, Structural)]
pub enum RemovePhase {
    /// Waiting for the list of saved connections.
    Listing,
    /// Waiting for the state of the profile's connection.
    Checking,
    Deleting,
    SavingLibrary,
    RemovingFiles,
    Finished,
}

/// Removing a profile, its connection and its files.
pub struct RemoveFlow {
    pub phase: RemovePhase,
    /// The library without the profile.
    pub next: Profiles,
    pub root: String,
    /// The profile being removed.
    pub profile: Profile,
}

impl RemoveFlow {
    /// Starts removing the profile `id`, which must be in the library. The first step lists
    /// the saved connections: a connection that is already gone needs no deletion.
    pub fn start(store: &Profiles, root: &str, id: u128) -> (r: Result<(RemoveFlow, FlowAction), ProfileError>)
        ensures
            has_id(store.profiles@, id) <==> r is Ok,
            r matches Err(e) ==> e == ProfileError::ProfileMissing,
            r matches Ok((f, a)) ==> {
                &&& f.phase == RemovePhase::Listing
                &&& f.profile == store.profiles@[index_of(store.profiles@, id)->0]
                &&& f.next.profiles@ == without_id(store.profiles@, id)
                &&& f.next.selected == if store.selected == Some(id) {
                    if f.next.profiles@.len() > 0 {
                        Some(f.next.profiles@[0].id)
                    } else {
                        None
                    }
                } else {
                    store.selected
                }
                &&& f.root@ == root@
                &&& (a matches FlowAction::Run(c) && (texts(c.args@) == saved_listing() && c.limit == 8))
            },
    {
        let (next, profile) = match store.removing(id) {
            Ok(x) => x,
            Err(e) => return Err(e),
        };
        Ok((RemoveFlow { phase: RemovePhase::Listing, next, root: String::from_str(root), profile }, FlowAction::Run(list_saved())))
    }

    /// Takes the outcome of the last step.
    pub fn advance(&mut self, reply: Result<String, String>) -> (a: FlowAction)
        requires
            old(self).phase != RemovePhase::Finished,
        ensures
            final(self).next == old(self).next && final(self).profile == old(self).profile,
            final(self).root == old(self).root,
            reply matches Err(m) ==> final(self).phase == RemovePhase::Finished && (a matches FlowAction::Finish(
                Err(e),
            ) && e == m),
            old(self).phase == RemovePhase::Listing ==> (reply matches Ok(listing) ==> if listed(
                listing@,
                old(self).profile.nm_uuid,
            ) {
                final(self).phase == RemovePhase::Checking && (a matches FlowAction::Run(c) && (texts(c.args@)
                    == state_query(old(self).profile.nm_uuid) && c.limit == 8))
            } else {
                final(self).phase == RemovePhase::SavingLibrary && (a matches FlowAction::SaveLibrary(n) && same_library(n, old(self).next))
            }),
            old(self).phase == RemovePhase::Checking ==> (reply matches Ok(state) ==> if inactive_state(state@) {
                final(self).phase == RemovePhase::Deleting && (a matches FlowAction::Run(c) && (texts(c.args@)
                    == deletion(old(self).profile.nm_uuid) && c.limit == 20))
            } else {
                final(self).phase == RemovePhase::Finished && (a matches FlowAction::Finish(Err(e)) && e@
                    == "Disconnect this profile before removing it."@)
            }),
            old(self).phase == RemovePhase::Deleting && reply is Ok ==> final(self).phase
                == RemovePhase::SavingLibrary && (a matches FlowAction::SaveLibrary(n) && same_library(n, old(self).next)),
            old(self).phase == RemovePhase::SavingLibrary && reply is Ok ==> final(self).phase
                == RemovePhase::RemovingFiles && (a matches FlowAction::CommitThenRemove { library, directory }
                && (same_library(library, old(self).next) && directory@ == profile_dir(old(self).root@, old(self).profile.id))),
            old(self).phase == RemovePhase::RemovingFiles && reply is Ok ==> final(self).phase
                == RemovePhase::Finished && (a matches FlowAction::Finish(Ok(n)) && same_library(n, old(self).next)),
            // The library is kept only once it is saved, and the files go only after that.
            a matches FlowAction::CommitThenRemove { .. } ==> old(self).phase == RemovePhase::SavingLibrary && reply is Ok,
            a matches FlowAction::Finish(Ok(_)) ==> old(self).phase == RemovePhase::RemovingFiles && reply is Ok,
            // The library without the profile is saved only once its connection is known to be
            // gone (not listed) or deleted.
            a is SaveLibrary ==> (old(self).phase == RemovePhase::Listing || old(self).phase == RemovePhase::Deleting)
                && reply is Ok,
    {
        let out = match reply {
            Err(m) => {
                self.phase = RemovePhase::Finished;
                return FlowAction::Finish(Err(m));
            },
            Ok(out) => out,
        };
        match self.phase {
            RemovePhase::Listing => {
                if lists_connection(out.as_str(), self.profile.nm_uuid) {
                    self.phase = RemovePhase::Checking;
                    FlowAction::Run(query_state(self.profile.nm_uuid))
                } else {
                    self.phase = RemovePhase::SavingLibrary;
                    FlowAction::SaveLibrary(self.next.duplicate())
                }
            },
            RemovePhase::Checking => {
                if is_inactive(out.as_str()) {
                    self.phase = RemovePhase::Deleting;
                    FlowAction::Run(delete_connection(self.profile.nm_uuid))
                } else {
                    self.phase = RemovePhase::Finished;
                    FlowAction::Finish(Err(ProfileError::StillConnected.message()))
                }
            },
            RemovePhase::Deleting => {
                self.phase = RemovePhase::SavingLibrary;
                FlowAction::SaveLibrary(self.next.duplicate())
            },
            RemovePhase::SavingLibrary => {
                self.phase = RemovePhase::RemovingFiles;
                FlowAction::CommitThenRemove {
                    library: self.next.duplicate(),
                    directory: profile_dir_path(self.root.as_str(), self.profile.id),
                }
            },
            _ => {
                self.phase = RemovePhase::Finished;
                FlowAction::Finish(Ok(self.next.duplicate()))
            },
        }
    }
}

/// Whether two imports differ at most in the password of their login.
pub open spec fn same_but_password(a: ImportFlow, b: ImportFlow) -> bool {
    &&& a.phase == b.phase
    &&& same_saved(a.store, b.store)
    &&& a.root@ == b.root@
    &&& a.id == b.id
    &&& a.name@ == b.name@
    &&& match (a.user, b.user) {
        (None, None) => true,
        (Some(x), Some(y)) => x@ == y@,
        _ => false,
    }
    &&& a.destination@ == b.destination@
    &&& a.remote@ == b.remote@
    &&& a.protocol@ == b.protocol@
    &&& a.created == b.created
    &&& (a.phase == ImportPhase::RollingBack || a.phase == ImportPhase::RemovingFiles) ==> a.failure@
        == b.failure@
    &&& match (a.login, b.login) {
        (None, None) => true,
        (Some((u1, _)), Some((u2, _))) => u1@ == u2@,
        _ => false,
    }
}

/// Whether two profiles hold the same values.
pub open spec fn same_profile(p: Profile, q: Profile) -> bool {
    &&& p.id == q.id
    &&& p.nm_uuid == q.nm_uuid
    &&& p.name@ == q.name@
    &&& p.remote@ == q.remote@
    &&& p.protocol@ == q.protocol@
    &&& p.username@ == q.username@
    &&& p.has_password == q.has_password
}

/// Whether two libraries hold the same values, and so are saved as the same text.
pub open spec fn same_saved(a: Profiles, b: Profiles) -> bool {
    &&& a.selected == b.selected
    &&& a.profiles@.len() == b.profiles@.len()
    &&& forall|i: int| 0 <= i < a.profiles@.len() ==> same_profile(#[trigger] a.profiles@[i], b.profiles@[i])
}

/// Whether two actions are the same but for the text of a password file.
pub open spec fn same_but_password_text(a: FlowAction, b: FlowAction) -> bool {
    match (a, b) {
        (FlowAction::Run(c1), FlowAction::Run(c2)) => texts(c1.args@) == texts(c2.args@) && c1.limit == c2.limit,
        (FlowAction::SaveLibrary(l1), FlowAction::SaveLibrary(l2)) => same_saved(l1, l2),
        (
            FlowAction::WritePassword { directory: d1, path: p1, text: _ },
            FlowAction::WritePassword { directory: d2, path: p2, text: _ },
        ) => d1@ == d2@ && p1@ == p2@,
        (FlowAction::RemoveDir(d1), FlowAction::RemoveDir(d2)) => d1@ == d2@,
        (
            FlowAction::Bundle { source: s1, destination: d1 },
            FlowAction::Bundle { source: s2, destination: d2 },
        ) => s1@ == s2@ && d1@ == d2@,
        (FlowAction::Finish(Ok(l1)), FlowAction::Finish(Ok(l2))) => same_saved(l1, l2),
        (FlowAction::Finish(Err(m1)), FlowAction::Finish(Err(m2))) => m1@ == m2@,
        _ => false,
    }
}

/// Two libraries after the same import step hold the same values.
proof fn lemma_same_library_after_import(n1: Profiles, n2: Profiles, f1: ImportFlow, f2: ImportFlow, nm: u128)
    requires
        same_but_password(f1, f2),
        library_after_import(n1, f1, nm),
        library_after_import(n2, f2, nm),
    ensures
        same_saved(n1, n2),
{
    assert forall|i: int| 0 <= i < n1.profiles@.len() implies same_profile(#[trigger] n1.profiles@[i], n2.profiles@[i]) by {
        if i < n1.profiles@.len() - 1 {
            assert(n1.profiles@[i] == n1.profiles@.drop_last()[i]);
            assert(n2.profiles@[i] == n2.profiles@.drop_last()[i]);
            assert(same_profile(f1.store.profiles@[i], f2.store.profiles@[i]));
        }
    }
}

/// The password given with an import goes into the password file and nowhere else: two
/// imports that differ only in that password, given the same replies, take the same steps,
/// run the same commands with the same arguments and save the same library; only the text
/// of the password file differs.
pub proof fn lemma_password_only_in_its_file(
    f1: ImportFlow,
    f2: ImportFlow,
    g1: ImportFlow,
    g2: ImportFlow,
    reply: Result<String, String>,
    a1: FlowAction,
    a2: FlowAction,
)
    requires
        same_but_password(f1, f2),
        f1.phase != ImportPhase::Bundling,
        f1.phase != ImportPhase::Finished,
        f1.phase != ImportPhase::Importing && f1.phase != ImportPhase::RemovingFiles ==> f1.created is Some,
        f1.phase == ImportPhase::SettingUsername || f1.phase == ImportPhase::SavingPassword ==> f1.login is Some,
        import_step(f1, g1, reply, a1),
        import_step(f2, g2, reply, a2),
    ensures
        same_but_password(g1, g2),
        same_but_password_text(a1, a2),
{
    if f1.phase == ImportPhase::SavingPassword && reply is Ok {
        lemma_same_library_after_import(a1->SaveLibrary_0, a2->SaveLibrary_0, f1, f2, f1.created->0);
    } else if f1.phase == ImportPhase::SavingLibrary && reply is Ok {
        let n1 = a1->Finish_0->Ok_0;
        let n2 = a2->Finish_0->Ok_0;
        lemma_same_library_after_import(n1, n2, f1, f2, f1.created->0);
    } else if (f1.phase == ImportPhase::Naming || f1.phase == ImportPhase::Restricting) && reply is Ok && f1.login
        is None && (f1.phase == ImportPhase::Restricting || f1.user is None) {
        lemma_same_library_after_import(a1->SaveLibrary_0, a2->SaveLibrary_0, f1, f2, f1.created->0);
    }
}

/// Whether an import may take its next reply: it is past bundling and not finished, with
/// a created connection from naming on and a login while the login is stored.
pub open spec fn advancing(f: ImportFlow) -> bool {
    &&& f.phase != ImportPhase::Bundling
    &&& f.phase != ImportPhase::Finished
    &&& f.phase == ImportPhase::Importing ==> f.created is None
    &&& f.phase != ImportPhase::Importing && f.phase != ImportPhase::RemovingFiles ==> f.created is Some
    &&& f.phase == ImportPhase::SettingUsername || f.phase == ImportPhase::SavingPassword ==> f.login is Some
}

/// A run of an import from `f`: after reply `k` the flow is `flows[k + 1]` and asks for
/// `actions[k]`.
pub open spec fn import_run(
    f: ImportFlow,
    replies: Seq<Result<String, String>>,
    flows: Seq<ImportFlow>,
    actions: Seq<FlowAction>,
) -> bool {
    &&& flows.len() == replies.len() + 1
    &&& actions.len() == replies.len()
    &&& flows[0] == f
    &&& forall|k: int|
        0 <= k < replies.len() ==> advancing(#[trigger] flows[k]) && import_step(flows[k], flows[k + 1], replies[k], actions[k])
}

/// Two starts that differ only in the login's password lead to imports that differ only in
/// it, and ask for the same bundling.
proof fn lemma_start_same_but_password(
    store: Profiles,
    root: Seq<char>,
    source: Seq<char>,
    name: Seq<char>,
    u1: String,
    p1: String,
    u2: String,
    p2: String,
    user: Option<String>,
    id: u128,
    f1: ImportFlow,
    a1: FlowAction,
    f2: ImportFlow,
    a2: FlowAction,
)
    requires
        u1@ == u2@,
        import_started(store, root, source, name, Some((u1, p1)), user, id, f1, a1),
        import_started(store, root, source, name, Some((u2, p2)), user, id, f2, a2),
    ensures
        same_but_password(f1, f2),
        same_but_password_text(a1, a2),
{
    assert forall|i: int| 0 <= i < f1.store.profiles@.len() implies same_profile(
        #[trigger] f1.store.profiles@[i],
        f2.store.profiles@[i],
    ) by {}
    assert(f1.remote@ =~= f2.remote@);
    assert(f1.protocol@ =~= f2.protocol@);
    assert(f1.name@ == f2.name@);
    assert(f1.destination@ == f2.destination@);
    assert(same_saved(f1.store, f2.store));
    assert(f1.login is Some && f2.login is Some);
    let (fu1, fp1) = f1.login->0;
    let (fu2, fp2) = f2.login->0;
    assert(fu1@ == trim(u1@));
    assert(fu1@ == fu2@);
}

/// Two imports that differ only in the password take the same bundling step.
proof fn lemma_bundle_same_but_password(
    f1: ImportFlow,
    f2: ImportFlow,
    g1: ImportFlow,
    g2: ImportFlow,
    outcome: Result<(String, String), String>,
    a1: FlowAction,
    a2: FlowAction,
)
    requires
        same_but_password(f1, f2),
        f1.phase == ImportPhase::Bundling,
        f1.created is None,
        bundle_step(f1, g1, outcome, a1),
        bundle_step(f2, g2, outcome, a2),
    ensures
        same_but_password(g1, g2),
        same_but_password_text(a1, a2),
{
}

/// Over whole runs given the same replies, two imports that differ only in the password
/// stay so, and ask for the same actions but for the password file's text.
proof fn lemma_run_same_but_password(
    f1: ImportFlow,
    f2: ImportFlow,
    replies: Seq<Result<String, String>>,
    flows1: Seq<ImportFlow>,
    actions1: Seq<FlowAction>,
    flows2: Seq<ImportFlow>,
    actions2: Seq<FlowAction>,
    n: int,
)
    requires
        same_but_password(f1, f2),
        import_run(f1, replies, flows1, actions1),
        import_run(f2, replies, flows2, actions2),
        0 <= n <= replies.len(),
    ensures
        forall|k: int| 0 <= k <= n ==> same_but_password(#[trigger] flows1[k], flows2[k]),
        forall|k: int| 0 <= k < n ==> same_but_password_text(#[trigger] actions1[k], actions2[k]),
    decreases n,
{
    if n > 0 {
        lemma_run_same_but_password(f1, f2, replies, flows1, actions1, flows2, actions2, n - 1);
        let k = n - 1;
        assert(advancing(flows1[k]) && import_step(flows1[k], flows1[k + 1], replies[k], actions1[k]));
        assert(advancing(flows2[k]) && import_step(flows2[k], flows2[k + 1], replies[k], actions2[k]));
        assert(same_but_password(flows1[k], flows2[k]));
        lemma_password_only_in_its_file(flows1[k], flows2[k], flows1[k + 1], flows2[k + 1], replies[k], actions1[k], actions2[k]);
    }
}

/// The password given with an import goes into the password file and nowhere else, over
/// the whole import: two imports of the same configuration under the same name, for the same
/// user, with the same username and fresh id and given the same bundling outcome and the
/// same replies, but with different passwords, ask for the same bundling, run the same
/// commands with the same arguments and limits, and save and hand back the same library;
/// they differ only in the text of the password file.
pub proof fn lemma_import_password_only_in_its_file(
    store: Profiles,
    root: Seq<char>,
    source: Seq<char>,
    name: Seq<char>,
    u1: String,
    p1: String,
    u2: String,
    p2: String,
    user: Option<String>,
    id: u128,
    start1: (ImportFlow, FlowAction),
    start2: (ImportFlow, FlowAction),
    outcome: Result<(String, String), String>,
    bundled1: (ImportFlow, FlowAction),
    bundled2: (ImportFlow, FlowAction),
    replies: Seq<Result<String, String>>,
    flows1: Seq<ImportFlow>,
    actions1: Seq<FlowAction>,
    flows2: Seq<ImportFlow>,
    actions2: Seq<FlowAction>,
)
    requires
        u1@ == u2@,
        import_started(store, root, source, name, Some((u1, p1)), user, id, start1.0, start1.1),
        import_started(store, root, source, name, Some((u2, p2)), user, id, start2.0, start2.1),
        bundle_step(start1.0, bundled1.0, outcome, bundled1.1),
        bundle_step(start2.0, bundled2.0, outcome, bundled2.1),
        import_run(bundled1.0, replies, flows1, actions1),
        import_run(bundled2.0, replies, flows2, actions2),
    ensures
        same_but_password_text(start1.1, start2.1),
        same_but_password_text(bundled1.1, bundled2.1),
        forall|k: int| 0 <= k < replies.len() ==> same_but_password_text(#[trigger] actions1[k], actions2[k]),
        forall|k: int| 0 <= k <= replies.len() ==> same_but_password(#[trigger] flows1[k], flows2[k]),
{
    lemma_start_same_but_password(store, root, source, name, u1, p1, u2, p2, user, id, start1.0, start1.1, start2.0, start2.1);
    lemma_bundle_same_but_password(start1.0, start2.0, bundled1.0, bundled2.0, outcome, bundled1.1, bundled2.1);
    lemma_run_same_but_password(bundled1.0, bundled2.0, replies, flows1, actions1, flows2, actions2, replies.len() as int);
}

} // verus!
