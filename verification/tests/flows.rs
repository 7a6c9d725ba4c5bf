//! The import, login and removal flows, driven step by step with scripted replies.

use openvpn_profiles::flows::{FlowAction, ImportFlow, ImportPhase, LoginFlow, RemoveFlow, login_saved_notice};
use openvpn_profiles::profile::{Profile, ProfileError, Profiles};
use uuid::Uuid;

const ROOT: &str = "/home/user/.local/share/openvpn-gpui/profiles";
const NEW_ID: &str = "aaaaaaaa-aaaa-4aaa-8aaa-aaaaaaaaaaaa";
const NM: &str = "bbbbbbbb-bbbb-4bbb-8bbb-bbbbbbbbbbbb";

fn id(text: &str) -> u128 {
    Uuid::parse_str(text).unwrap().as_u128()
}

fn words(items: &[&str]) -> Vec<String> {
    items.iter().map(|s| s.to_string()).collect()
}

fn existing() -> Profile {
    Profile {
        id: id("cccccccc-cccc-4ccc-8ccc-cccccccccccc"),
        nm_uuid: id("dddddddd-dddd-4ddd-8ddd-dddddddddddd"),
        name: "Office".into(),
        remote: "office.example.test".into(),
        protocol: "UDP · 1194".into(),
        username: "alice".into(),
        has_password: true,
    }
}

fn library() -> Profiles {
    let p = existing();
    Profiles { selected: Some(p.id), profiles: vec![p] }
}

fn run_args(action: &FlowAction) -> (Vec<String>, u64) {
    match action {
        FlowAction::Run(c) => (c.args.clone(), c.limit),
        other => panic!("expected a command, got {other:?}"),
    }
}

fn shown(p: &Profiles) -> String {
    format!("{p:?}")
}

fn dir() -> String {
    format!("{ROOT}/{NEW_ID}")
}

fn start_import(login: Option<(String, String)>, user: Option<String>) -> ImportFlow {
    let (flow, action) =
        ImportFlow::start(&library(), ROOT, "/tmp/work.ovpn", " Work ", login, user, id(NEW_ID)).unwrap();
    match action {
        FlowAction::Bundle { source, destination } => {
            assert_eq!(source, "/tmp/work.ovpn");
            assert_eq!(destination, dir());
        }
        other => panic!("expected bundling, got {other:?}"),
    }
    assert_eq!(flow.name, "Work");
    flow
}

fn imported_reply() -> Result<String, String> {
    Ok(format!("Connection 'work' ({NM}) successfully added."))
}

#[test]
fn import_without_login_adds_and_selects_the_profile() {
    let mut flow = start_import(None, None);
    let action = flow.bundled(Ok(("vpn.work.test".into(), "TCP · 443".into())));
    assert_eq!(
        run_args(&action),
        (
            words(&["--wait", "20", "connection", "import", "type", "openvpn", "file", &format!("{}/{NEW_ID}.ovpn", dir())]),
            25
        )
    );
    let action = flow.advance(imported_reply());
    assert_eq!(
        run_args(&action),
        (
            words(&["connection", "modify", "uuid", NM, "connection.id", "OpenVPN · Work", "connection.autoconnect", "no"]),
            10
        )
    );
    let next = match flow.advance(Ok(String::new())) {
        FlowAction::SaveLibrary(next) => next,
        other => panic!("expected saving, got {other:?}"),
    };
    assert_eq!(next.profiles.len(), 2);
    assert_eq!(next.selected, Some(id(NEW_ID)));
    let added = &next.profiles[1];
    assert_eq!(added.nm_uuid, id(NM));
    assert_eq!(added.name, "Work");
    assert_eq!(added.remote, "vpn.work.test");
    assert_eq!(added.protocol, "TCP · 443");
    assert_eq!(added.username, "");
    assert!(!added.has_password);
    match flow.advance(Ok(String::new())) {
        FlowAction::Finish(Ok(done)) => assert_eq!(shown(&done), shown(&next)),
        other => panic!("expected the finished library, got {other:?}"),
    }
    assert_eq!(flow.phase, ImportPhase::Finished);
}

#[test]
fn import_with_login_and_user_restricts_and_saves_the_password() {
    let mut flow = start_import(Some((" bob ".into(), "s3cret".into())), Some("bob".into()));
    flow.bundled(Ok(("vpn.work.test".into(), "UDP · 1194".into())));
    flow.advance(imported_reply());
    let action = flow.advance(Ok(String::new()));
    assert_eq!(
        run_args(&action),
        (words(&["connection", "modify", "uuid", NM, "connection.permissions", "user:bob"]), 10)
    );
    let action = flow.advance(Ok(String::new()));
    assert_eq!(
        run_args(&action),
        (words(&["connection", "modify", "uuid", NM, "+vpn.data", "username=bob"]), 10)
    );
    match flow.advance(Ok(String::new())) {
        FlowAction::WritePassword { directory, path, text } => {
            assert_eq!(directory, dir());
            assert_eq!(path, format!("{}/credentials", dir()));
            assert_eq!(text, "vpn.secrets.password:s3cret\n");
        }
        other => panic!("expected the password file, got {other:?}"),
    }
    match flow.advance(Ok(String::new())) {
        FlowAction::SaveLibrary(next) => {
            assert_eq!(next.profiles[1].username, "bob");
            assert!(next.profiles[1].has_password);
        }
        other => panic!("expected saving, got {other:?}"),
    }
    assert!(matches!(flow.advance(Ok(String::new())), FlowAction::Finish(Ok(_))));
}

#[test]
fn import_refuses_bad_names_and_logins_before_any_step() {
    let store = library();
    let taken = ImportFlow::start(&store, ROOT, "/tmp/a.ovpn", "office", None, None, id(NEW_ID));
    assert!(matches!(taken, Err(ProfileError::NameInUse)));
    let empty = ImportFlow::start(&store, ROOT, "/tmp/a.ovpn", "  ", None, None, id(NEW_ID));
    assert!(matches!(empty, Err(ProfileError::InvalidName)));
    let no_password = ImportFlow::start(
        &store,
        ROOT,
        "/tmp/a.ovpn",
        "New",
        Some(("carol".into(), String::new())),
        None,
        id(NEW_ID),
    );
    assert!(matches!(no_password, Err(ProfileError::PasswordRequired)));
}

#[test]
fn failed_bundling_removes_the_files_and_reports_the_failure() {
    let mut flow = start_import(None, None);
    match flow.bundled(Err("Missing referenced file".into())) {
        FlowAction::RemoveDir(d) => assert_eq!(d, dir()),
        other => panic!("expected removing the files, got {other:?}"),
    }
    match flow.advance(Ok(String::new())) {
        FlowAction::Finish(Err(m)) => assert_eq!(m, "Missing referenced file"),
        other => panic!("expected the failure, got {other:?}"),
    }
}

#[test]
fn import_without_connection_id_fails_without_rollback_command() {
    let mut flow = start_import(None, None);
    flow.bundled(Ok(("h".into(), "UDP · 1194".into())));
    match flow.advance(Ok("Connection failed".into())) {
        FlowAction::RemoveDir(d) => assert_eq!(d, dir()),
        other => panic!("expected removing the files, got {other:?}"),
    }
    match flow.advance(Ok(String::new())) {
        FlowAction::Finish(Err(m)) => assert_eq!(m, "NetworkManager did not return an imported connection ID"),
        other => panic!("expected the failure, got {other:?}"),
    }
}

#[test]
fn failure_after_import_deletes_the_connection_then_the_files() {
    let mut flow = start_import(None, None);
    flow.bundled(Ok(("h".into(), "UDP · 1194".into())));
    flow.advance(imported_reply());
    let action = flow.advance(Err("modify failed".into()));
    assert_eq!(run_args(&action), (words(&["connection", "delete", "uuid", NM]), 10));
    assert!(matches!(flow.advance(Ok(String::new())), FlowAction::RemoveDir(d) if d == dir()));
    match flow.advance(Ok(String::new())) {
        FlowAction::Finish(Err(m)) => assert_eq!(m, "modify failed"),
        other => panic!("expected the failure, got {other:?}"),
    }
}

#[test]
fn failed_rollback_keeps_the_files() {
    let mut flow = start_import(None, None);
    flow.bundled(Ok(("h".into(), "UDP · 1194".into())));
    flow.advance(imported_reply());
    flow.advance(Err("modify failed".into()));
    match flow.advance(Err("delete failed".into())) {
        FlowAction::Finish(Err(m)) => assert_eq!(m, "modify failed"),
        other => panic!("expected the original failure, got {other:?}"),
    }
}

#[test]
fn failed_library_save_rolls_back_the_import() {
    let mut flow = start_import(None, None);
    flow.bundled(Ok(("h".into(), "UDP · 1194".into())));
    flow.advance(imported_reply());
    flow.advance(Ok(String::new()));
    let action = flow.advance(Err("disk full".into()));
    assert_eq!(run_args(&action), (words(&["connection", "delete", "uuid", NM]), 10));
}

#[test]
fn saving_a_login_with_a_new_password() {
    let store = library();
    let p = existing();
    let (mut flow, action) = LoginFlow::start(&store, ROOT, p.id, " dave ", Some("pw")).unwrap();
    assert_eq!(
        run_args(&action),
        (
            words(&["connection", "modify", "uuid", "dddddddd-dddd-4ddd-8ddd-dddddddddddd", "+vpn.data", "username=dave"]),
            10
        )
    );
    match flow.advance(Ok(String::new())) {
        FlowAction::WritePassword { directory, path, text } => {
            assert_eq!(directory, format!("{ROOT}/cccccccc-cccc-4ccc-8ccc-cccccccccccc"));
            assert_eq!(path, format!("{ROOT}/cccccccc-cccc-4ccc-8ccc-cccccccccccc/credentials"));
            assert_eq!(text, "vpn.secrets.password:pw\n");
        }
        other => panic!("expected the password file, got {other:?}"),
    }
    let saved = match flow.advance(Ok(String::new())) {
        FlowAction::SaveLibrary(next) => next,
        other => panic!("expected saving, got {other:?}"),
    };
    assert_eq!(saved.profiles[0].username, "dave");
    assert!(saved.profiles[0].has_password);
    assert!(matches!(flow.advance(Ok(String::new())), FlowAction::Finish(Ok(n)) if shown(&n) == shown(&saved)));
    assert_eq!(login_saved_notice(), "Saved login details for this profile.");
}

#[test]
fn saving_a_login_keeps_a_saved_password_and_stops_at_a_failure() {
    let store = library();
    let p = existing();
    let (mut flow, _) = LoginFlow::start(&store, ROOT, p.id, "erin", None).unwrap();
    assert!(matches!(flow.advance(Ok(String::new())), FlowAction::SaveLibrary(_)));
    let (mut failing, _) = LoginFlow::start(&store, ROOT, p.id, "erin", None).unwrap();
    assert!(matches!(failing.advance(Err("no such connection".into())), FlowAction::Finish(Err(m)) if m == "no such connection"));
    assert!(matches!(LoginFlow::start(&store, ROOT, 7, "erin", None), Err(ProfileError::ProfileMissing)));
    assert!(matches!(LoginFlow::start(&store, ROOT, p.id, "  ", None), Err(ProfileError::InvalidUsername)));
}

#[test]
fn removing_a_profile_whose_connection_is_gone() {
    let store = library();
    let p = existing();
    let (mut flow, action) = RemoveFlow::start(&store, ROOT, p.id).unwrap();
    assert_eq!(run_args(&action), (words(&["-g", "UUID", "connection", "show"]), 8));
    let next = match flow.advance(Ok("eeeeeeee-eeee-4eee-8eee-eeeeeeeeeeee".into())) {
        FlowAction::SaveLibrary(next) => next,
        other => panic!("expected saving, got {other:?}"),
    };
    assert!(next.profiles.is_empty());
    assert_eq!(next.selected, None);
    match flow.advance(Ok(String::new())) {
        FlowAction::CommitThenRemove { library, directory } => {
            assert_eq!(shown(&library), shown(&next));
            assert_eq!(directory, format!("{ROOT}/cccccccc-cccc-4ccc-8ccc-cccccccccccc"));
        }
        other => panic!("expected committing, got {other:?}"),
    }
    assert!(matches!(flow.advance(Ok(String::new())), FlowAction::Finish(Ok(n)) if shown(&n) == shown(&next)));
}

#[test]
fn removing_a_profile_deletes_an_inactive_connection_and_refuses_an_active_one() {
    let store = library();
    let p = existing();
    let nm = "dddddddd-dddd-4ddd-8ddd-dddddddddddd";
    let (mut flow, _) = RemoveFlow::start(&store, ROOT, p.id).unwrap();
    let action = flow.advance(Ok(format!("eeeeeeee-eeee-4eee-8eee-eeeeeeeeeeee\n{nm}")));
    assert_eq!(run_args(&action), (words(&["-g", "GENERAL.STATE", "connection", "show", "uuid", nm]), 8));
    let action = flow.advance(Ok("deactivated".into()));
    assert_eq!(run_args(&action), (words(&["--wait", "15", "connection", "delete", "uuid", nm]), 20));
    assert!(matches!(flow.advance(Ok(String::new())), FlowAction::SaveLibrary(_)));

    let (mut active, _) = RemoveFlow::start(&store, ROOT, p.id).unwrap();
    active.advance(Ok(nm.into()));
    match active.advance(Ok("activated".into())) {
        FlowAction::Finish(Err(m)) => assert_eq!(m, "Disconnect this profile before removing it."),
        other => panic!("expected the refusal, got {other:?}"),
    }
    assert!(matches!(RemoveFlow::start(&store, ROOT, 9), Err(ProfileError::ProfileMissing)));
}
