//! The `nmcli` invocations the app makes, each with its time limit in seconds.
//!
//! Every command that changes NetworkManager's state names one connection by its exact UUID.
use vstd::prelude::*;
use crate::ids::{uuid_string, uuid_text};

verus! {

/// One `nmcli` run: its arguments (after the fixed output-format flags) and the number of
/// seconds after which it is abandoned.
#[derive(Debug)]
pub struct Command {
    pub args: Vec<String>,
    pub limit: u64,
}

/// The character sequences of a sequence of strings.
pub open spec fn texts(v: Seq<String>) -> Seq<Seq<char>> {
    Seq::new(v.len(), |i: int| v[i]@)
}

/// `-g UUID connection show --active`
pub open spec fn active_listing() -> Seq<Seq<char>> {
    seq!["-g"@, "UUID"@, "connection"@, "show"@, "--active"@]
}

/// `-g UUID connection show`
pub open spec fn saved_listing() -> Seq<Seq<char>> {
    seq!["-g"@, "UUID"@, "connection"@, "show"@]
}

/// `-g GENERAL.STATE connection show uuid <id>`
pub open spec fn state_query(id: u128) -> Seq<Seq<char>> {
    seq!["-g"@, "GENERAL.STATE"@, "connection"@, "show"@, "uuid"@, uuid_text(id)]
}

/// `-g GENERAL.STATE,IP4.ADDRESS,IP6.ADDRESS connection show uuid <id>`
pub open spec fn status_query(id: u128) -> Seq<Seq<char>> {
    seq!["-g"@, "GENERAL.STATE,IP4.ADDRESS,IP6.ADDRESS"@, "connection"@, "show"@, "uuid"@, uuid_text(id)]
}

/// `-t -f RUNNING general`
pub open spec fn running_query() -> Seq<Seq<char>> {
    seq!["-t"@, "-f"@, "RUNNING"@, "general"@]
}

/// `--wait 15 connection down uuid <id>`
pub open spec fn deactivation(id: u128) -> Seq<Seq<char>> {
    seq!["--wait"@, "15"@, "connection"@, "down"@, "uuid"@, uuid_text(id)]
}

/// `--wait 90 connection up uuid <id>`, followed by `passwd-file <path>` when a saved
/// password file is used.
pub open spec fn activation(id: u128, password_file: Option<Seq<char>>) -> Seq<Seq<char>> {
    let base = seq!["--wait"@, "90"@, "connection"@, "up"@, "uuid"@, uuid_text(id)];
    match password_file {
        Some(p) => base + seq!["passwd-file"@, p],
        None => base,
    }
}

/// `--wait 20 connection import type openvpn file <path>`
pub open spec fn import_of(path: Seq<char>) -> Seq<Seq<char>> {
    seq!["--wait"@, "20"@, "connection"@, "import"@, "type"@, "openvpn"@, "file"@, path]
}

/// `connection modify uuid <id> connection.id "OpenVPN · <name>" connection.autoconnect no`
pub open spec fn naming(id: u128, name: Seq<char>) -> Seq<Seq<char>> {
    seq![
        "connection"@,
        "modify"@,
        "uuid"@,
        uuid_text(id),
        "connection.id"@,
        "OpenVPN · "@ + name,
        "connection.autoconnect"@,
        "no"@,
    ]
}

/// `connection modify uuid <id> connection.permissions user:<user>`
pub open spec fn user_restriction(id: u128, user: Seq<char>) -> Seq<Seq<char>> {
    seq!["connection"@, "modify"@, "uuid"@, uuid_text(id), "connection.permissions"@, "user:"@ + user]
}

/// `connection modify uuid <id> +vpn.data username=<username>`
pub open spec fn username_setting(id: u128, username: Seq<char>) -> Seq<Seq<char>> {
    seq!["connection"@, "modify"@, "uuid"@, uuid_text(id), "+vpn.data"@, "username="@ + username]
}

/// `--wait 15 connection delete uuid <id>`
pub open spec fn deletion(id: u128) -> Seq<Seq<char>> {
    seq!["--wait"@, "15"@, "connection"@, "delete"@, "uuid"@, uuid_text(id)]
}

/// `connection delete uuid <id>`, used to undo a failed import.
pub open spec fn import_rollback(id: u128) -> Seq<Seq<char>> {
    seq!["connection"@, "delete"@, "uuid"@, uuid_text(id)]
}

fn word(s: &str) -> (r: String)
    ensures
        r@ == s@,
{
    String::from_str(s)
}

fn joined(a: &str, b: &str) -> (r: String)
    ensures
        r@ == a@ + b@,
{
    String::from_str(a).concat(b)
}

/// Lists the UUIDs of the active connections.
pub fn list_active() -> (c: Command)
    ensures
        texts(c.args@) == active_listing(),
        c.limit == 8,
{
    let args = vec![word("-g"), word("UUID"), word("connection"), word("show"), word("--active")];
    assert(texts(args@) =~= active_listing());
    Command { args, limit: 8 }
}

/// Lists the UUIDs of all saved connections.
pub fn list_saved() -> (c: Command)
    ensures
        texts(c.args@) == saved_listing(),
        c.limit == 8,
{
    let args = vec![word("-g"), word("UUID"), word("connection"), word("show")];
    assert(texts(args@) =~= saved_listing());
    Command { args, limit: 8 }
}

/// Asks for the activation state of one connection.
pub fn query_state(id: u128) -> (c: Command)
    ensures
        texts(c.args@) == state_query(id),
        c.limit == 8,
{
    let args = vec![
        word("-g"),
        word("GENERAL.STATE"),
        word("connection"),
        word("show"),
        word("uuid"),
        uuid_string(id),
    ];
    assert(texts(args@) =~= state_query(id));
    Command { args, limit: 8 }
}

/// Asks for the state and addresses of one connection.
pub fn query_status(id: u128) -> (c: Command)
    ensures
        texts(c.args@) == status_query(id),
        c.limit == 8,
{
    let args = vec![
        word("-g"),
        word("GENERAL.STATE,IP4.ADDRESS,IP6.ADDRESS"),
        word("connection"),
        word("show"),
        word("uuid"),
        uuid_string(id),
    ];
    assert(texts(args@) =~= status_query(id));
    Command { args, limit: 8 }
}

/// Asks whether NetworkManager is running.
pub fn query_running() -> (c: Command)
    ensures
        texts(c.args@) == running_query(),
        c.limit == 8,
{
    let args = vec![word("-t"), word("-f"), word("RUNNING"), word("general")];
    assert(texts(args@) =~= running_query());
    Command { args, limit: 8 }
}

/// Deactivates one connection.
pub fn deactivate(id: u128) -> (c: Command)
    ensures
        texts(c.args@) == deactivation(id),
        c.limit == 20,
{
    let args = vec![
        word("--wait"),
        word("15"),
        word("connection"),
        word("down"),
        word("uuid"),
        uuid_string(id),
    ];
    assert(texts(args@) =~= deactivation(id));
    Command { args, limit: 20 }
}

/// Activates one connection, with a saved password file when one is given.
pub fn activate(id: u128, password_file: Option<&str>) -> (c: Command)
    ensures
        texts(c.args@) == activation(
            id,
            match password_file {
                Some(p) => Some(p@),
                None => None,
            },
        ),
        c.limit == 95,
{
    let mut args = vec![
        word("--wait"),
        word("90"),
        word("connection"),
        word("up"),
        word("uuid"),
        uuid_string(id),
    ];
    match password_file {
        Some(p) => {
            args.push(word("passwd-file"));
            args.push(word(p));
        },
        None => {},
    }
    assert(texts(args@) =~= activation(
        id,
        match password_file {
            Some(p) => Some(p@),
            None => None,
        },
    ));
    Command { args, limit: 95 }
}

/// Imports an OpenVPN configuration file as a new connection.
pub fn import_config(path: &str) -> (c: Command)
    ensures
        texts(c.args@) == import_of(path@),
        c.limit == 25,
{
    let args = vec![
        word("--wait"),
        word("20"),
        word("connection"),
        word("import"),
        word("type"),
        word("openvpn"),
        word("file"),
        word(path),
    ];
    assert(texts(args@) =~= import_of(path@));
    Command { args, limit: 25 }
}

/// Names an imported connection after its profile and turns off autoconnect.
pub fn name_connection(id: u128, name: &str) -> (c: Command)
    ensures
        texts(c.args@) == naming(id, name@),
        c.limit == 10,
{
    let args = vec![
        word("connection"),
        word("modify"),
        word("uuid"),
        uuid_string(id),
        word("connection.id"),
        joined("OpenVPN · ", name),
        word("connection.autoconnect"),
        word("no"),
    ];
    assert(texts(args@) =~= naming(id, name@));
    Command { args, limit: 10 }
}

/// Restricts a connection to one user.
pub fn restrict_to_user(id: u128, user: &str) -> (c: Command)
    ensures
        texts(c.args@) == user_restriction(id, user@),
        c.limit == 10,
{
    let args = vec![
        word("connection"),
        word("modify"),
        word("uuid"),
        uuid_string(id),
        word("connection.permissions"),
        joined("user:", user),
    ];
    assert(texts(args@) =~= user_restriction(id, user@));
    Command { args, limit: 10 }
}

/// Stores the VPN username in a connection.
pub fn set_username(id: u128, username: &str) -> (c: Command)
    ensures
        texts(c.args@) == username_setting(id, username@),
        c.limit == 10,
{
    let args = vec![
        word("connection"),
        word("modify"),
        word("uuid"),
        uuid_string(id),
        word("+vpn.data"),
        joined("username=", username),
    ];
    assert(texts(args@) =~= username_setting(id, username@));
    Command { args, limit: 10 }
}

/// Deletes a saved connection.
pub fn delete_connection(id: u128) -> (c: Command)
    ensures
        texts(c.args@) == deletion(id),
        c.limit == 20,
{
    let args = vec![
        word("--wait"),
        word("15"),
        word("connection"),
        word("delete"),
        word("uuid"),
        uuid_string(id),
    ];
    assert(texts(args@) =~= deletion(id));
    Command { args, limit: 20 }
}

/// Deletes the connection of an import that could not be completed.
pub fn roll_back_import(id: u128) -> (c: Command)
    ensures
        texts(c.args@) == import_rollback(id),
        c.limit == 10,
{
    let args = vec![word("connection"), word("delete"), word("uuid"), uuid_string(id)];
    assert(texts(args@) =~= import_rollback(id));
    Command { args, limit: 10 }
}

} // verus!
