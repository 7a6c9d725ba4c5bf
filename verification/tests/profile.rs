use openvpn_profiles::bundle::{BundleError, BundleStep, plan_bundle};
use openvpn_profiles::paths::{config_path, credentials_path, join_path, path_file_name, profile_dir_path};
use openvpn_profiles::profile::{
    Profile, ProfileError, Profiles, password_file_text, validate_credentials,
};
use uuid::Uuid;

fn check_bundles_relative_files_and_preserves_inline_blocks() {
    let dest = "/tmp/fixture/saved profile";
    let plan = plan_bundle(
        "client\nremote vpn.example.test 443 tcp-client\nkey \"client key.pem\"\n<ca>\ncertificate\n</ca>\n",
        dest,
    );
    let bundle = plan.outcome.unwrap();
    assert_eq!(bundle.remote, "vpn.example.test");
    assert_eq!(bundle.protocol, "TCP · 443");
    match &plan.steps[..] {
        [BundleStep::Copy { source, target, key, line }] => {
            assert_eq!(source, "client key.pem");
            assert_eq!(target, "/tmp/fixture/saved profile/2-key");
            assert_eq!(key, "key");
            assert_eq!(*line, 3);
        }
        other => panic!("unexpected steps {other:?}"),
    }
    assert!(bundle.config.contains("<ca>\ncertificate\n</ca>"));
    assert!(bundle.config.contains("key \"/tmp/fixture/saved profile/2-key\"\n"));
    assert_eq!(config_path(dest), "/tmp/fixture/saved profile/saved profile.ovpn");
}

fn check_rejects_executable_configs_and_missing_assets() {
    let out = "/tmp/fixture/out";
    assert!(matches!(
        plan_bundle("remote host\nup /tmp/script", out).outcome,
        Err(BundleError::Refused(key)) if key == "up"
    ));
    // The reference is planned as a copy; the copy fails because the file is missing.
    let missing = plan_bundle("remote host\nkey missing.pem", out);
    assert!(matches!(
        &missing.steps[..],
        [BundleStep::Copy { source, .. }] if source == "missing.pem"
    ));
    assert!(!std::path::Path::new("/tmp/fixture/missing.pem").exists());
    assert!(matches!(
        plan_bundle("remote host\n<ca>\nunfinished", out).outcome,
        Err(BundleError::UnclosedBlock)
    ));
    assert!(matches!(plan_bundle("garbage", out).outcome, Err(BundleError::NoRemote)));
}

fn stored(id: u128, name: &str) -> Profile {
    Profile {
        id,
        nm_uuid: Uuid::new_v4().as_u128(),
        name: name.into(),
        remote: "vpn.example.test".into(),
        protocol: "UDP · 1194".into(),
        username: String::new(),
        has_password: false,
    }
}

fn check_store_roundtrip_and_corruption_preservation() {
    let id = Uuid::new_v4().as_u128();
    let mut loaded = Profiles { profiles: vec![stored(id, "DFKI")], selected: Some(id) };
    loaded.settle_selection();
    assert_eq!(loaded.selected().unwrap().name, "DFKI");
    assert_eq!(loaded.validate_name(" dfki "), Err(ProfileError::NameInUse));
    assert_eq!(loaded.validate_name(" "), Err(ProfileError::InvalidName));
}

fn check_credentials_are_validated_and_saved_privately() {
    let id = Uuid::new_v4();
    let (username, password) =
        validate_credentials("  sam.samples  ", "secret phrase", false).unwrap();
    assert_eq!(username, "sam.samples");
    assert_eq!(
        password_file_text(password.as_deref().unwrap()),
        "vpn.secrets.password:secret phrase\n"
    );
    assert_eq!(
        credentials_path("/data", id.as_u128()),
        format!("/data/{id}/credentials")
    );
    let mut profiles = Profiles {
        profiles: vec![Profile { username: username.clone(), ..stored(id.as_u128(), "Office") }],
        selected: Some(id.as_u128()),
    };
    profiles.mark_saved_passwords(&[true]);
    assert!(profiles.selected().unwrap().has_password);
    assert!(validate_credentials("sam", "", false).is_err());
    assert_eq!(
        validate_credentials("sam", "", true).unwrap(),
        ("sam".into(), None)
    );
    assert!(validate_credentials("samples,sam", "secret", false).is_err());
    assert!(validate_credentials("sam", "line\nbreak", false).is_err());
}

#[test]
fn profile_bundles_relative_files_and_preserves_inline_blocks() {
    check_bundles_relative_files_and_preserves_inline_blocks();
}

#[test]
fn tests_bundles_relative_files_and_preserves_inline_blocks() {
    check_bundles_relative_files_and_preserves_inline_blocks();
}

#[test]
fn profile_rejects_executable_configs_and_missing_assets() {
    check_rejects_executable_configs_and_missing_assets();
}

#[test]
fn tests_rejects_executable_configs_and_missing_assets() {
    check_rejects_executable_configs_and_missing_assets();
}

#[test]
fn profile_store_roundtrip_and_corruption_preservation() {
    check_store_roundtrip_and_corruption_preservation();
}

#[test]
fn tests_store_roundtrip_and_corruption_preservation() {
    check_store_roundtrip_and_corruption_preservation();
}

#[test]
fn profile_credentials_are_validated_and_saved_privately() {
    check_credentials_are_validated_and_saved_privately();
}

#[test]
fn tests_credentials_are_validated_and_saved_privately() {
    check_credentials_are_validated_and_saved_privately();
}

#[test]
fn credential_errors_have_their_messages() {
    assert_eq!(
        validate_credentials(" ", "x", false).unwrap_err().message(),
        "Enter a username between 1 and 255 characters without commas."
    );
    assert_eq!(
        validate_credentials("sam", "", false).unwrap_err().message(),
        "Enter a password to save with this profile."
    );
    assert_eq!(
        validate_credentials("sam", &"x".repeat(4097), false).unwrap_err(),
        ProfileError::InvalidPassword
    );
    assert_eq!(
        validate_credentials(&"u".repeat(256), "x", false).unwrap_err(),
        ProfileError::InvalidUsername
    );
    assert_eq!(
        validate_credentials("\u{2003}sam\u{85}", "pässwörd", false).unwrap(),
        ("sam".into(), Some("pässwörd".into()))
    );
}

#[test]
fn names_are_trimmed_limited_and_unique_ignoring_case() {
    let store = Profiles { profiles: vec![stored(1, "Straße")], selected: Some(1) };
    assert_eq!(store.validate_name("  Office  "), Ok("Office".into()));
    assert_eq!(store.validate_name("STRASSE"), Ok("STRASSE".into()));
    assert_eq!(store.validate_name("STRAẞE"), Err(ProfileError::NameInUse));
    assert_eq!(store.validate_name(&"n".repeat(60)), Ok("n".repeat(60)));
    assert_eq!(store.validate_name(&"n".repeat(61)), Err(ProfileError::InvalidName));
    assert_eq!(store.validate_name("tab\tinside"), Err(ProfileError::InvalidName));
    assert_eq!(
        ProfileError::NameInUse.message(),
        "That profile name is already in use."
    );
}

#[test]
fn library_operations_keep_the_selection_valid() {
    let mut store = Profiles { profiles: vec![stored(1, "One"), stored(2, "Two")], selected: Some(9) };
    store.settle_selection();
    assert_eq!(store.selected, Some(1));
    let selected = store.selecting(2).unwrap();
    assert_eq!(selected.selected, Some(2));
    assert_eq!(store.selecting(7).unwrap_err(), ProfileError::ProfileVanished);
    let (after, gone) = selected.removing(2).unwrap();
    assert_eq!(gone.name, "Two");
    assert_eq!(after.profiles.len(), 1);
    assert_eq!(after.selected, Some(1));
    let (after, _) = after.removing(1).unwrap();
    assert!(after.profiles.is_empty());
    assert_eq!(after.selected, None);
    assert_eq!(after.removing(1).unwrap_err(), ProfileError::ProfileMissing);
    let added = store.adding(stored(5, "Five"));
    assert_eq!(added.selected().unwrap().name, "Five");
    let with_login = added.with_login(5, "sam".into()).unwrap();
    let five = with_login.selected().unwrap();
    assert_eq!(five.username, "sam");
    assert!(five.has_password);
    assert_eq!(added.with_login(8, "sam".into()).unwrap_err(), ProfileError::ProfileMissing);
}

#[test]
fn paths_follow_std_path_rules() {
    assert_eq!(join_path("/a/", "b"), "/a/b");
    assert_eq!(join_path("/a", "/b"), "/b");
    assert_eq!(join_path("", "b"), "b");
    assert_eq!(path_file_name("/a/b/."), Some("b".into()));
    assert_eq!(path_file_name("/a/b//"), Some("b".into()));
    assert_eq!(path_file_name("/a/.."), None);
    assert_eq!(path_file_name("/"), None);
    for path in ["/a/b/.", "/a/b//", "/a/..", "/", "x", "./x/", "a/./b"] {
        let expected = std::path::Path::new(path)
            .file_name()
            .map(|n| n.to_string_lossy().into_owned());
        assert_eq!(path_file_name(path), expected, "{path}");
    }
    let id = Uuid::new_v4();
    assert_eq!(profile_dir_path("/data", id.as_u128()), format!("/data/{id}"));
    assert_eq!(config_path("/data/abc/"), "/data/abc/abc.ovpn");
}

#[test]
fn bundle_reads_defaults_directory_changes_and_quoting() {
    let plan = plan_bundle(
        "# comment\n; other\nproto TCP\nport 8443\nremote vpn.example.test\n--cd keys\nca \"c\\\\a \\\"x\\\".pem\"\ntls-auth [inline]\n<connection>\nremote second\n</connection>\n",
        "/d",
    );
    let bundle = plan.outcome.unwrap();
    assert_eq!(bundle.remote, "vpn.example.test");
    assert_eq!(bundle.protocol, "TCP · 8443");
    match &plan.steps[..] {
        [BundleStep::ChangeDir(dir), BundleStep::Copy { source, target, key, line }] => {
            assert_eq!(dir, "keys");
            assert_eq!(source, "c\\a \"x\".pem");
            assert_eq!(target, "/d/6-ca");
            assert_eq!(key, "ca");
            assert_eq!(*line, 7);
        }
        other => panic!("unexpected steps {other:?}"),
    }
    assert!(!bundle.config.contains("--cd"));
    assert!(bundle.config.starts_with("# comment\n; other\nproto TCP\n"));
    assert!(bundle.config.contains("tls-auth [inline]\n<connection>\n"));

    let plan = plan_bundle("remote h 99999 udp\nport 1\n", "/d");
    assert_eq!(plan.outcome.unwrap().protocol, "UDP · 1");
    let plan = plan_bundle("remote h +70 tcp6-client\n", "/d");
    assert_eq!(plan.outcome.unwrap().protocol, "TCP · +70");

    let plan = plan_bundle("remote h\nca \"open\n", "/d");
    match plan.outcome {
        Err(error) => assert_eq!(error.message(), "Invalid quoting on line 2: missing closing quote"),
        Ok(_) => panic!("expected a quoting error"),
    }
    assert!(matches!(plan_bundle("cd\nremote h", "/d").outcome, Err(BundleError::MissingDirectory)));
    assert_eq!(
        BundleError::Refused("plugin".into()).message(),
        "This configuration uses 'plugin', which this minimal NetworkManager app does not support."
    );
    assert_eq!(
        BundleError::NoRemote.message(),
        "No VPN server found. Choose an OpenVPN client configuration containing a 'remote' line."
    );
}

#[test]
fn copied_files_get_distinct_names_even_for_the_same_key() {
    let plan = plan_bundle(
        "remote vpn.example.test\nca first.pem\nca second.pem\ncert client.crt\n",
        "/tmp/fixture/dest",
    );
    let targets: Vec<String> = plan
        .steps
        .iter()
        .filter_map(|step| match step {
            BundleStep::Copy { target, .. } => Some(target.clone()),
            BundleStep::ChangeDir(_) => None,
        })
        .collect();
    assert_eq!(
        targets,
        vec![
            "/tmp/fixture/dest/1-ca".to_string(),
            "/tmp/fixture/dest/2-ca".to_string(),
            "/tmp/fixture/dest/3-cert".to_string(),
        ]
    );
}

#[test]
fn a_loaded_library_marks_saved_passwords_and_settles_its_selection() {
    let a = Uuid::new_v4().as_u128();
    let b = Uuid::new_v4().as_u128();
    let mut kept = Profiles { profiles: vec![stored(a, "A"), stored(b, "B")], selected: Some(b) };
    kept.settle_loaded(&[false, true]);
    assert_eq!(kept.selected, Some(b));
    assert!(!kept.profiles[0].has_password && kept.profiles[1].has_password);
    let mut stale = Profiles { profiles: vec![stored(a, "A"), stored(b, "B")], selected: Some(7) };
    stale.settle_loaded(&[false, false]);
    assert_eq!(stale.selected, Some(a));
    let mut empty = Profiles { profiles: vec![], selected: Some(7) };
    empty.settle_loaded(&[]);
    assert_eq!(empty.selected, None);
}

#[test]
fn a_quoting_error_names_its_line_and_reason() {
    let plan = plan_bundle("remote host\nca \"open.pem\n", "/tmp/fixture/q");
    match plan.outcome {
        Err(error @ BundleError::InvalidQuoting { .. }) => {
            assert!(matches!(&error, BundleError::InvalidQuoting { line: 2, reason } if reason == "missing closing quote"));
            assert_eq!(error.message(), "Invalid quoting on line 2: missing closing quote");
        }
        other => panic!("expected a quoting error, got {other:?}"),
    }
}
