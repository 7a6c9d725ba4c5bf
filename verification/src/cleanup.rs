//! Releasing every VPN connection of the library, on disconnect and before the app exits.
use vstd::prelude::*;
use crate::profile::{Profile, Profiles};
use crate::text::{append_chars, chars_of, string_of};

verus! {

/// Whether `id` occurs in `ids`.
pub open spec fn among(ids: Seq<u128>, id: u128) -> bool {
    exists|i: int| 0 <= i < ids.len() && ids[i] == id
}

/// The connection UUIDs of the first `n` profiles whose connection is active, in order.
pub open spec fn active_of(ps: Seq<Profile>, active: Seq<u128>, n: int) -> Seq<u128>
    decreases n,
{
    if n <= 0 {
        seq![]
    } else {
        let rest = active_of(ps, active, n - 1);
        if among(active, ps[n - 1].nm_uuid) {
            rest.push(ps[n - 1].nm_uuid)
        } else {
            rest
        }
    }
}

/// The report line of each of the first `n` profiles whose connection is still active.
pub open spec fn still_active_lines(ps: Seq<Profile>, remaining: Seq<u128>, n: int) -> Seq<Seq<char>>
    decreases n,
{
    if n <= 0 {
        seq![]
    } else {
        let rest = still_active_lines(ps, remaining, n - 1);
        if among(remaining, ps[n - 1].nm_uuid) {
            rest.push(ps[n - 1].name@ + " is still active. Try disconnecting again."@)
        } else {
            rest
        }
    }
}

proof fn lemma_still_active_reported(ps: Seq<Profile>, remaining: Seq<u128>, i: int, n: int)
    requires
        0 <= i < n <= ps.len(),
        among(remaining, ps[i].nm_uuid),
    ensures
        still_active_lines(ps, remaining, n).len() > 0,
    decreases n,
{
    if i < n - 1 {
        lemma_still_active_reported(ps, remaining, i, n - 1);
    }
}

/// The lines joined with line feeds between them.
pub open spec fn joined_lines(ls: Seq<Seq<char>>) -> Seq<char>
    decreases ls.len(),
{
    if ls.len() == 0 {
        seq![]
    } else if ls.len() == 1 {
        ls[0]
    } else {
        joined_lines(ls.drop_last()) + "\n"@ + ls.last()
    }
}

/// The character sequences of a sequence of strings.
pub open spec fn string_texts(v: Seq<String>) -> Seq<Seq<char>> {
    Seq::new(v.len(), |i: int| v[i]@)
}

/// Whether `id` occurs in `ids`.
pub fn contains_id(ids: &[u128], id: u128) -> (r: bool)
    ensures
        r == among(ids@, id),
{
    let mut i: usize = 0;
    while i < ids.len()
        invariant
            i <= ids.len(),
            forall|j: int| 0 <= j < i ==> ids@[j] != id,
        decreases ids.len() - i,
    {
        if ids[i] == id {
            return true;
        }
        i = i + 1;
    }
    false
}

/// The connections of the library that are active, in library order: the ones to deactivate.
pub fn active_connections(store: &Profiles, active: &[u128]) -> (r: Vec<u128>)
    ensures
        r@ == active_of(store.profiles@, active@, store.profiles@.len() as int),
        // A library connection is released exactly when the listing holds it anywhere.
        forall|i: int|
            0 <= i < store.profiles@.len() ==> (among(r@, #[trigger] store.profiles@[i].nm_uuid) <==> among(
                active@,
                store.profiles@[i].nm_uuid,
            )),
        // Only library connections that the listing holds are released.
        forall|k: int|
            0 <= k < r@.len() ==> (exists|i: int| 0 <= i < store.profiles@.len() && store.profiles@[i].nm_uuid == #[trigger] r@[k])
                && among(active@, r@[k]),
{
    let mut r: Vec<u128> = Vec::new();
    let mut i: usize = 0;
    while i < store.profiles.len()
        invariant
            i <= store.profiles@.len(),
            r@ == active_of(store.profiles@, active@, i as int),
        decreases store.profiles@.len() - i,
    {
        if contains_id(active, store.profiles[i].nm_uuid) {
            r.push(store.profiles[i].nm_uuid);
        }
        i = i + 1;
    }
    proof {
        lemma_released_connections(store.profiles@, active@, store.profiles@.len() as int);
        assert forall|i: int| 0 <= i < store.profiles@.len() implies (among(
            r@,
            #[trigger] store.profiles@[i].nm_uuid,
        ) <==> among(active@, store.profiles@[i].nm_uuid)) by {
            assert(store.profiles@[i].nm_uuid == store.profiles@[i].nm_uuid);
        }
        assert forall|k: int| 0 <= k < r@.len() implies (exists|i: int|
            0 <= i < store.profiles@.len() && store.profiles@[i].nm_uuid == #[trigger] r@[k]) && among(active@, r@[k]) by {
            assert(among(r@, r@[k]));
        }
    }
    r
}

/// The index of the first of the first `n` profiles whose connection is `nm`.
pub open spec fn first_with_connection(ps: Seq<Profile>, nm: u128, n: int) -> Option<int>
    decreases n,
{
    if n <= 0 {
        None
    } else {
        match first_with_connection(ps, nm, n - 1) {
            Some(k) => Some(k),
            None => if ps[n - 1].nm_uuid == nm {
                Some(n - 1)
            } else {
                None
            },
        }
    }
}

proof fn lemma_first_with_connection_stays(ps: Seq<Profile>, nm: u128, k: int, n: int)
    requires
        0 <= k <= n,
        first_with_connection(ps, nm, k) is Some,
    ensures
        first_with_connection(ps, nm, n) == first_with_connection(ps, nm, k),
    decreases n,
{
    if n > k {
        lemma_first_with_connection_stays(ps, nm, k, n - 1);
    }
}

/// Whether a cleanup has nothing to release: the library is empty, so no connection needs
/// to be listed at all.
pub fn nothing_to_release(store: &Profiles) -> (r: bool)
    ensures
        r == (store.profiles@.len() == 0),
{
    store.profiles.len() == 0
}

/// The name under which a failed deactivation of connection `nm` is reported: that of the
/// first profile with this connection, or nothing.
pub fn connection_name(store: &Profiles, nm: u128) -> (r: String)
    ensures
        match first_with_connection(store.profiles@, nm, store.profiles@.len() as int) {
            Some(i) => r@ == store.profiles@[i].name@,
            None => r@.len() == 0,
        },
{
    let mut i: usize = 0;
    while i < store.profiles.len()
        invariant
            i <= store.profiles@.len(),
            first_with_connection(store.profiles@, nm, i as int) is None,
        decreases store.profiles@.len() - i,
    {
        if store.profiles[i].nm_uuid == nm {
            proof {
                lemma_first_with_connection_stays(store.profiles@, nm, i + 1, store.profiles@.len() as int);
            }
            return store.profiles[i].name.clone();
        }
        i = i + 1;
    }
    String::new()
}

/// How a failed deactivation is reported: `<profile name>: <message>`.
pub fn failure_line(name: &str, message: &str) -> (r: String)
    ensures
        r@ == name@ + ": "@ + message@,
{
    String::from_str(name).concat(": ").concat(message)
}

/// The outcome of a cleanup: success when no deactivation failed and no connection of the
/// library is still active; otherwise every failure and every still-active profile, one per line.
pub fn cleanup_outcome(store: &Profiles, failures: &Vec<String>, remaining: &[u128]) -> (r: Result<(), String>)
    ensures
        ({
            let all = string_texts(failures@) + still_active_lines(
                store.profiles@,
                remaining@,
                store.profiles@.len() as int,
            );
            &&& all.len() == 0 ==> r is Ok
            &&& all.len() > 0 ==> (r matches Err(m) && m@ == joined_lines(all))
        }),
        // Completion is never reported while a connection of the library is still active.
        r is Ok ==> forall|i: int|
            0 <= i < store.profiles@.len() ==> !among(remaining@, #[trigger] store.profiles@[i].nm_uuid),
{
    proof {
        assert forall|i: int| 0 <= i < store.profiles@.len() && among(remaining@, #[trigger] store.profiles@[i].nm_uuid) implies still_active_lines(
            store.profiles@,
            remaining@,
            store.profiles@.len() as int,
        ).len() > 0 by {
            lemma_still_active_reported(store.profiles@, remaining@, i, store.profiles@.len() as int);
        }
    }
    let ghost fl = string_texts(failures@);
    let mut out: Vec<char> = Vec::new();
    let mut any = false;
    let mut i: usize = 0;
    while i < failures.len()
        invariant
            i <= failures@.len(),
            fl == string_texts(failures@),
            any == (i > 0),
            out@ == joined_lines(fl.take(i as int)),
        decreases failures@.len() - i,
    {
        assert(fl.take(i + 1).drop_last() =~= fl.take(i as int));
        assert(fl.take(i + 1).last() == failures@[i as int]@);
        if any {
            append_chars(&mut out, &chars_of("\n"));
        } else {
            assert(fl.take(i + 1) =~= seq![failures@[i as int]@]);
            assert(out@ =~= Seq::<char>::empty());
        }
        append_chars(&mut out, &chars_of(failures[i].as_str()));
        if !any {
            assert(out@ =~= failures@[i as int]@);
        }
        any = true;
        i = i + 1;
    }
    assert(fl.take(failures@.len() as int) =~= fl);
    let ghost ps = store.profiles@;
    let mut j: usize = 0;
    assert(fl + still_active_lines(ps, remaining@, 0) =~= fl);
    while j < store.profiles.len()
        invariant
            j <= ps.len(),
            ps == store.profiles@,
            fl == string_texts(failures@),
            any == ((fl + still_active_lines(ps, remaining@, j as int)).len() > 0),
            out@ == joined_lines(fl + still_active_lines(ps, remaining@, j as int)),
        decreases ps.len() - j,
    {
        let p = &store.profiles[j];
        if contains_id(remaining, p.nm_uuid) {
            let ghost before = fl + still_active_lines(ps, remaining@, j as int);
            let line = String::from_str(p.name.as_str()).concat(" is still active. Try disconnecting again.");
            assert(fl + still_active_lines(ps, remaining@, j + 1) =~= before.push(line@));
            assert(before.push(line@).drop_last() =~= before);
            if any {
                append_chars(&mut out, &chars_of("\n"));
            } else {
                assert(before.push(line@) =~= seq![line@]);
            }
            append_chars(&mut out, &chars_of(line.as_str()));
            any = true;
        }
        j = j + 1;
    }
    if !any {
        Ok(())
    } else {
        Err(string_of(&out))
    }
}

/// The connections a cleanup releases, over all libraries and listings: a connection is
/// released exactly when it belongs to one of the first `n` profiles and the listing of
/// active connections holds it, wherever in the listing it stands.
pub proof fn lemma_released_connections(ps: Seq<Profile>, active: Seq<u128>, n: int)
    requires
        0 <= n <= ps.len(),
    ensures
        forall|x: u128|
            #[trigger] among(active_of(ps, active, n), x) <==> ((exists|i: int| 0 <= i < n && #[trigger] ps[i].nm_uuid
                == x) && among(active, x)),
    decreases n,
{
    if n > 0 {
        lemma_released_connections(ps, active, n - 1);
        let rest = active_of(ps, active, n - 1);
        let cur = active_of(ps, active, n);
        let y = ps[n - 1].nm_uuid;
        assert forall|x: u128|
            #[trigger] among(cur, x) <==> ((exists|i: int| 0 <= i < n && #[trigger] ps[i].nm_uuid == x) && among(
                active,
                x,
            )) by {
            assert(among(rest, x) <==> ((exists|i: int| 0 <= i < n - 1 && #[trigger] ps[i].nm_uuid == x) && among(
                active,
                x,
            )));
            if among(cur, x) {
                let k = choose|k: int| 0 <= k < cur.len() && cur[k] == x;
                if among(active, y) && k == cur.len() - 1 {
                    assert(ps[n - 1].nm_uuid == x);
                } else {
                    assert(cur[k] == rest[k]);
                    assert(among(rest, x));
                }
            }
            if (exists|i: int| 0 <= i < n && #[trigger] ps[i].nm_uuid == x) && among(active, x) {
                let i = choose|i: int| 0 <= i < n && #[trigger] ps[i].nm_uuid == x;
                if i < n - 1 {
                    assert(among(rest, x));
                    let k = choose|k: int| 0 <= k < rest.len() && rest[k] == x;
                    if among(active, y) {
                        assert(cur[k] == rest[k]);
                    }
                    assert(among(cur, x));
                } else {
                    assert(among(active, y));
                    assert(cur[cur.len() - 1] == x);
                }
            }
        }
    }
}

} // verus!
