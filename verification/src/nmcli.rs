//! Reading what `nmcli` prints.
use vstd::prelude::*;
use crate::ids::{parse_uuid, uuid_parse};
use crate::text::{
    before_char, chars_of, find_first, find_last, first_pos, has_char, last_pos, lines, split_lines,
    string_of, trim, trimmed, chars_eq, slice_chars, up_to_char, views,
};

verus! {

/// The state of the selected VPN connection as the app shows it.
#[derive(Clone, Copy, PartialEq, Eq, Debug, Structural)]
pub enum ConnectionState {
    Idle,
    Connecting,
    Connected,
    Disconnecting,
    Unavailable,
}

/// The state that a `GENERAL.STATE` value of NetworkManager stands for.
pub open spec fn state_of(general_state: Seq<char>) -> ConnectionState {
    if general_state == "activated"@ {
        ConnectionState::Connected
    } else if general_state == "activating"@ {
        ConnectionState::Connecting
    } else if general_state == "deactivating"@ {
        ConnectionState::Disconnecting
    } else {
        ConnectionState::Idle
    }
}

/// The first line of `ls` that holds more than whitespace, or an empty line.
pub open spec fn first_nonblank(ls: Seq<Seq<char>>) -> Seq<char>
    decreases ls.len(),
{
    if ls.len() == 0 {
        seq![]
    } else if trim(ls[0]).len() > 0 {
        ls[0]
    } else {
        first_nonblank(ls.drop_first())
    }
}

/// The state and address that `nmcli -g GENERAL.STATE,IP4.ADDRESS,IP6.ADDRESS` output reports:
/// the state from the first line; when connected, the address from the next non-blank line,
/// without its prefix length.
pub open spec fn status_of(output: Seq<char>) -> (ConnectionState, Seq<char>) {
    let ls = lines(output);
    let state = state_of(if ls.len() > 0 { ls[0] } else { seq![] });
    let address = if state == ConnectionState::Connected {
        before_char(first_nonblank(ls.skip(1)), '/')
    } else {
        seq![]
    };
    (state, address)
}

/// The connection ID in `nmcli connection import` output: the UUID between the last `(`
/// and the `)` after it.
pub open spec fn import_id_of(output: Seq<char>) -> Option<u128> {
    match last_pos(output, '(') {
        Some(p) => {
            let rest = output.skip(p + 1);
            match first_pos(rest, ')') {
                Some(q) => uuid_parse(rest.take(q)),
                None => None,
            }
        },
        None => None,
    }
}

/// The UUIDs of the lines of `ls` that parse as one, in order.
pub open spec fn ids_in(ls: Seq<Seq<char>>) -> Seq<u128>
    decreases ls.len(),
{
    if ls.len() == 0 {
        seq![]
    } else {
        let rest = ids_in(ls.drop_last());
        match uuid_parse(ls.last()) {
            Some(id) => rest.push(id),
            None => rest,
        }
    }
}

/// The message of a failed `nmcli` run: its trimmed error output, else its trimmed output,
/// else a general sentence.
pub open spec fn failure_message(stdout: Seq<char>, stderr: Seq<char>) -> Seq<char> {
    let m = if trim(stderr).len() == 0 {
        trim(stdout)
    } else {
        trim(stderr)
    };
    if m.len() == 0 {
        "NetworkManager could not complete the operation."@
    } else {
        m
    }
}

/// The state and address of the selected connection in `nmcli` status output.
pub fn parse_status(output: &str) -> (r: (ConnectionState, String))
    ensures
        (r.0, r.1@) == status_of(output@),
{
    let text = chars_of(output);
    let ls = split_lines(&text);
    proof {
        reveal_strlit("activated");
    }
    let first: Vec<char> = if ls.len() > 0 {
        slice_chars(&ls[0], 0, ls[0].len())
    } else {
        Vec::new()
    };
    assert(views(ls@).len() == ls@.len());
    assert(ls.len() > 0 ==> first@ == lines(output@)[0]);
    assert(ls.len() == 0 ==> first@ =~= Seq::<char>::empty());
    let state = if chars_eq(&first, &chars_of("activated")) {
        ConnectionState::Connected
    } else if chars_eq(&first, &chars_of("activating")) {
        ConnectionState::Connecting
    } else if chars_eq(&first, &chars_of("deactivating")) {
        ConnectionState::Disconnecting
    } else {
        ConnectionState::Idle
    };
    if state != ConnectionState::Connected {
        return (state, String::new());
    }
    assert(first@ == "activated"@);
    assert(first@.len() == 9);
    assert(ls.len() > 0);
    let mut i: usize = 1;
    let ghost all = views(ls@);
    assert(all.skip(1) =~= all.skip(1));
    while i < ls.len()
        invariant
            1 <= i <= ls.len(),
            all == views(ls@),
            all == lines(output@),
            state == ConnectionState::Connected,
            status_of(output@).0 == ConnectionState::Connected,
            first_nonblank(all.skip(1)) == first_nonblank(all.skip(i as int)),
        decreases ls.len() - i,
    {
        let t = trimmed(&ls[i]);
        assert(all.skip(i as int)[0] == ls@[i as int]@);
        if t.len() > 0 {
            assert(first_nonblank(all.skip(i as int)) == ls@[i as int]@);
            let address = up_to_char(&ls[i], '/');
            return (state, string_of(&address));
        }
        assert(all.skip(i as int).drop_first() =~= all.skip(i + 1));
        i = i + 1;
    }
    assert(all.skip(i as int).len() == 0);
    let none: Vec<char> = Vec::new();
    assert(before_char(Seq::<char>::empty(), '/') =~= Seq::<char>::empty());
    (state, string_of(&none))
}

/// The UUID that `nmcli connection import` reports for the connection it created.
pub fn parse_import_uuid(output: &str) -> (r: Option<u128>)
    ensures
        r == import_id_of(output@),
{
    let text = chars_of(output);
    match find_last(&text, '(') {
        Some(p) => {
            let rest = slice_chars(&text, p + 1, text.len());
            assert(rest@ =~= output@.skip(p + 1));
            match find_first(&rest, ')') {
                Some(q) => {
                    let id = slice_chars(&rest, 0, q);
                    assert(id@ =~= rest@.take(q as int));
                    parse_uuid(string_of(&id).as_str())
                },
                None => None,
            }
        },
        None => None,
    }
}

/// The UUIDs listed, one per line, by `nmcli -g UUID connection show --active`.
pub fn parse_active_uuids(output: &str) -> (r: Vec<u128>)
    ensures
        r@ == ids_in(lines(output@)),
{
    let text = chars_of(output);
    let ls = split_lines(&text);
    let ghost all = views(ls@);
    let mut ids: Vec<u128> = Vec::new();
    let mut i: usize = 0;
    while i < ls.len()
        invariant
            i <= ls.len(),
            all == views(ls@),
            all == lines(output@),
            ids@ == ids_in(all.take(i as int)),
        decreases ls.len() - i,
    {
        let parsed = parse_uuid(string_of(&ls[i]).as_str());
        assert(all.take(i + 1).drop_last() =~= all.take(i as int));
        assert(all.take(i + 1).last() == ls@[i as int]@);
        if let Some(id) = parsed {
            ids.push(id);
        }
        i = i + 1;
    }
    assert(all.take(ls.len() as int) =~= all);
    ids
}

/// What a finished `nmcli` run yields: its trimmed output when it succeeded, else the
/// message of its failure.
pub fn command_outcome(success: bool, stdout: &str, stderr: &str) -> (r: Result<String, String>)
    ensures
        success ==> (r matches Ok(o) && o@ == trim(stdout@)),
        !success ==> (r matches Err(m) && m@ == failure_message(stdout@, stderr@)),
{
    let out = trimmed(&chars_of(stdout));
    if success {
        return Ok(string_of(&out));
    }
    let err = trimmed(&chars_of(stderr));
    let m = if err.len() == 0 {
        out
    } else {
        err
    };
    if m.len() == 0 {
        Err("NetworkManager could not complete the operation.".to_string())
    } else {
        Err(string_of(&m))
    }
}

/// Only NetworkManager's `activated` state shows a connection as connected, and only a
/// connected connection shows an address.
pub proof fn lemma_only_activated_connects(output: Seq<char>)
    ensures
        status_of(output).0 == ConnectionState::Connected <==> (lines(output).len() > 0 && lines(output)[0]
            == "activated"@),
        status_of(output).0 != ConnectionState::Connected ==> status_of(output).1.len() == 0,
        status_of(output).0 != ConnectionState::Unavailable,
{
    reveal_strlit("activated");
    assert("activated"@.len() == 9);
    assert(Seq::<char>::empty() != "activated"@);
}

/// `c` found at the end of `a + [c] + post`, where `post` holds no `c`.
proof fn lemma_last_pos_before(a: Seq<char>, c: char, post: Seq<char>)
    requires
        !has_char(post, c),
    ensures
        last_pos(a + seq![c] + post, c) == Some(a.len() as int),
    decreases post.len(),
{
    let s = a + seq![c] + post;
    if post.len() == 0 {
        assert(s =~= a.push(c));
    } else {
        assert(post[post.len() - 1] == post.last());
        assert(s.last() == post.last());
        assert(s.drop_last() =~= a + seq![c] + post.drop_last());
        assert(!has_char(post.drop_last(), c)) by {
            if has_char(post.drop_last(), c) {
                let i = choose|i: int| 0 <= i < post.drop_last().len() && #[trigger] post.drop_last()[i] == c;
                assert(post[i] == c);
            }
        }
        lemma_last_pos_before(a, c, post.drop_last());
    }
}

/// `c` found right after `t`, in `t + [c] + rest`, where `t` holds no `c`.
proof fn lemma_first_pos_after(t: Seq<char>, c: char, rest: Seq<char>)
    requires
        !has_char(t, c),
    ensures
        first_pos(t + seq![c] + rest, c) == Some(t.len() as int),
    decreases t.len(),
{
    let s = t + seq![c] + rest;
    if t.len() > 0 {
        assert(s[0] == t[0]);
        assert(s.drop_first() =~= t.drop_first() + seq![c] + rest);
        assert(!has_char(t.drop_first(), c)) by {
            if has_char(t.drop_first(), c) {
                let i = choose|i: int| 0 <= i < t.drop_first().len() && #[trigger] t.drop_first()[i] == c;
                assert(t[i + 1] == c);
            }
        }
        lemma_first_pos_after(t.drop_first(), c, rest);
    } else {
        assert(s[0] == c);
    }
}

/// The connection id is read from the last parenthesised group of the import output, so a
/// UUID or parenthesis in the connection's name, before it, is never taken for it.
pub proof fn lemma_import_id_from_last_group(before: Seq<char>, id_text: Seq<char>, after: Seq<char>)
    requires
        !has_char(id_text, '('),
        !has_char(id_text, ')'),
        !has_char(after, '('),
    ensures
        import_id_of(before + seq!['('] + id_text + seq![')'] + after) == uuid_parse(id_text),
{
    let out = before + seq!['('] + id_text + seq![')'] + after;
    let tail = id_text + seq![')'] + after;
    assert(!has_char(tail, '(')) by {
        if has_char(tail, '(') {
            let i = choose|i: int| 0 <= i < tail.len() && #[trigger] tail[i] == '(';
            if i < id_text.len() {
                assert(id_text[i] == '(');
            } else if i > id_text.len() {
                assert(after[i - id_text.len() - 1] == '(');
            }
        }
    }
    assert(out =~= before + seq!['('] + tail);
    lemma_last_pos_before(before, '(', tail);
    assert(out.skip(before.len() + 1int) =~= tail);
    lemma_first_pos_after(id_text, ')', after);
    assert(tail.take(id_text.len() as int) =~= id_text);
}

} // verus!
