//! Unix path arithmetic on text, as `std::path::Path` performs it.
use vstd::prelude::*;
use crate::ids::{uuid_string, uuid_text};
use crate::text::{append_chars, chars_of, has_char, string_of, views, chars_eq};

verus! {

/// `base.join(rest)`: an absolute `rest` replaces `base`; otherwise `rest` is appended,
/// after a `/` unless `base` is empty or already ends with one.
pub open spec fn join(base: Seq<char>, rest: Seq<char>) -> Seq<char> {
    if rest.len() > 0 && rest[0] == '/' {
        rest
    } else if base.len() == 0 || base.last() == '/' {
        base + rest
    } else {
        base + seq!['/'] + rest
    }
}

/// The pieces of `rest` between slashes, where `current` is the piece in progress.
pub open spec fn pieces_from(rest: Seq<char>, current: Seq<char>) -> Seq<Seq<char>>
    decreases rest.len(),
{
    if rest.len() == 0 {
        seq![current]
    } else if rest[0] == '/' {
        seq![current] + pieces_from(rest.drop_first(), seq![])
    } else {
        pieces_from(rest.drop_first(), current.push(rest[0]))
    }
}

/// The pieces of `p` between slashes, empty ones included.
pub open spec fn pieces(p: Seq<char>) -> Seq<Seq<char>> {
    pieces_from(p, seq![])
}

/// The last piece of `ps` that is neither empty nor `.`.
pub open spec fn last_named(ps: Seq<Seq<char>>) -> Option<Seq<char>>
    decreases ps.len(),
{
    if ps.len() == 0 {
        None
    } else if ps.last().len() == 0 || ps.last() == "."@ {
        last_named(ps.drop_last())
    } else {
        Some(ps.last())
    }
}

/// `Path::file_name`: the final component of `p` when it is a normal name (not the root,
/// `.` or `..`).
pub open spec fn file_name(p: Seq<char>) -> Option<Seq<char>> {
    match last_named(pieces(p)) {
        Some(n) => if n == ".."@ {
            None
        } else {
            Some(n)
        },
        None => None,
    }
}

/// Where a profile stores its NetworkManager configuration: `<destination>/<name>.ovpn`,
/// named after the destination directory (NetworkManager names extracted inline
/// certificates after the file, so the name keeps profiles apart).
pub open spec fn config_file(destination: Seq<char>) -> Seq<char> {
    let name = match file_name(destination) {
        Some(n) => n,
        None => seq![],
    };
    join(destination, name + ".ovpn"@)
}

/// A profile's private directory: `<root>/<profile id>`.
pub open spec fn profile_dir(root: Seq<char>, id: u128) -> Seq<char> {
    join(root, uuid_text(id))
}

/// A profile's saved-password file: `<root>/<profile id>/credentials`.
pub open spec fn credentials_file(root: Seq<char>, id: u128) -> Seq<char> {
    join(profile_dir(root, id), "credentials"@)
}

/// `base.join(rest)` on text.
pub fn join_path(base: &str, rest: &str) -> (r: String)
    ensures
        r@ == join(base@, rest@),
{
    let b = chars_of(base);
    let t = chars_of(rest);
    if t.len() > 0 && t[0] == '/' {
        return string_of(&t);
    }
    let mut out = b;
    if out.len() > 0 && out[out.len() - 1] != '/' {
        out.push('/');
    }
    append_chars(&mut out, &t);
    string_of(&out)
}

proof fn lemma_pieces_step(s: Seq<char>, i: int, cur: Seq<char>)
    requires
        0 <= i < s.len(),
    ensures
        s[i] == '/' ==> pieces_from(s.skip(i), cur) == seq![cur] + pieces_from(s.skip(i + 1), seq![]),
        s[i] != '/' ==> pieces_from(s.skip(i), cur) == pieces_from(s.skip(i + 1), cur.push(s[i])),
{
    assert(s.skip(i).drop_first() =~= s.skip(i + 1));
    assert(s.skip(i)[0] == s[i]);
}

fn split_pieces(s: &[char]) -> (r: Vec<Vec<char>>)
    ensures
        views(r@) == pieces(s@),
{
    let mut out: Vec<Vec<char>> = Vec::new();
    let mut cur: Vec<char> = Vec::new();
    let mut i: usize = 0;
    assert(s@.skip(0) =~= s@);
    while i < s.len()
        invariant
            i <= s.len(),
            pieces(s@) == views(out@) + pieces_from(s@.skip(i as int), cur@),
        decreases s.len() - i,
    {
        proof {
            lemma_pieces_step(s@, i as int, cur@);
        }
        if s[i] == '/' {
            let ghost before = views(out@);
            let ghost piece = cur@;
            out.push(cur);
            assert(views(out@) =~= before.push(piece));
            cur = Vec::new();
            assert(cur@ =~= Seq::<char>::empty());
        } else {
            cur.push(s[i]);
        }
        i = i + 1;
    }
    assert(s@.skip(s.len() as int) =~= Seq::<char>::empty());
    let ghost before = views(out@);
    let ghost piece = cur@;
    out.push(cur);
    assert(views(out@) =~= before.push(piece));
    out
}

/// `Path::file_name` on text.
pub fn path_file_name(path: &str) -> (r: Option<String>)
    ensures
        match r {
            Some(n) => file_name(path@) == Some(n@),
            None => file_name(path@) is None,
        },
{
    let ps = split_pieces(&chars_of(path));
    let ghost all = views(ps@);
    let dot = chars_of(".");
    let mut j: usize = ps.len();
    assert(all.take(ps.len() as int) =~= all);
    while j > 0
        invariant
            j <= ps.len(),
            all == views(ps@),
            all == pieces(path@),
            dot@ == "."@,
            last_named(all) == last_named(all.take(j as int)),
        decreases j,
    {
        let piece = &ps[j - 1];
        assert(all.take(j as int).last() == piece@);
        if piece.len() > 0 && !chars_eq(piece, &dot) {
            if chars_eq(piece, &chars_of("..")) {
                return None;
            }
            return Some(string_of(piece));
        }
        assert(all.take(j as int).drop_last() =~= all.take(j - 1));
        j = j - 1;
    }
    None
}

/// The configuration file of a profile whose files are kept in `destination`.
pub fn config_path(destination: &str) -> (r: String)
    ensures
        r@ == config_file(destination@),
{
    let mut name: Vec<char> = match path_file_name(destination) {
        Some(n) => chars_of(n.as_str()),
        None => Vec::new(),
    };
    append_chars(&mut name, &chars_of(".ovpn"));
    join_path(destination, string_of(&name).as_str())
}

/// A profile's private directory under the data directory `root`.
pub fn profile_dir_path(root: &str, id: u128) -> (r: String)
    ensures
        r@ == profile_dir(root@, id),
{
    join_path(root, uuid_string(id).as_str())
}

/// The file holding a profile's saved password.
pub fn credentials_path(root: &str, id: u128) -> (r: String)
    ensures
        r@ == credentials_file(root@, id),
{
    let dir = profile_dir_path(root, id);
    join_path(dir.as_str(), "credentials")
}

/// Text without a slash is one piece, appended to the piece in progress.
proof fn lemma_pieces_plain(x: Seq<char>, cur: Seq<char>)
    requires
        !has_char(x, '/'),
    ensures
        pieces_from(x, cur) == seq![cur + x],
    decreases x.len(),
{
    if x.len() == 0 {
        assert(cur + x =~= cur);
    } else {
        assert(x[0] != '/');
        assert(!has_char(x.drop_first(), '/')) by {
            if has_char(x.drop_first(), '/') {
                let i = choose|i: int| 0 <= i < x.drop_first().len() && #[trigger] x.drop_first()[i] == '/';
                assert(x[i + 1] == '/');
            }
        }
        lemma_pieces_plain(x.drop_first(), cur.push(x[0]));
        assert(cur.push(x[0]) + x.drop_first() =~= cur + x);
    }
}

/// The last piece of a text is what follows its last slash.
proof fn lemma_pieces_last(y: Seq<char>, x: Seq<char>, cur: Seq<char>)
    requires
        !has_char(x, '/'),
    ensures
        pieces_from(y + seq!['/'] + x, cur).len() > 0,
        pieces_from(y + seq!['/'] + x, cur).last() == x,
    decreases y.len(),
{
    let s = y + seq!['/'] + x;
    if y.len() == 0 {
        assert(s[0] == '/');
        assert(s.drop_first() =~= x);
        lemma_pieces_plain(x, seq![]);
        assert(seq![] + x =~= x);
    } else {
        assert(s[0] == y[0]);
        assert(s.drop_first() =~= y.drop_first() + seq!['/'] + x);
        if y[0] == '/' {
            lemma_pieces_last(y.drop_first(), x, seq![]);
        } else {
            lemma_pieces_last(y.drop_first(), x, cur.push(y[0]));
        }
    }
}

/// No piece holds a slash.
proof fn lemma_pieces_have_no_slash(s: Seq<char>, cur: Seq<char>)
    requires
        !has_char(cur, '/'),
    ensures
        forall|k: int| 0 <= k < pieces_from(s, cur).len() ==> !has_char(#[trigger] pieces_from(s, cur)[k], '/'),
    decreases s.len(),
{
    if s.len() == 0 {
        assert forall|k: int| 0 <= k < pieces_from(s, cur).len() implies !has_char(
            #[trigger] pieces_from(s, cur)[k],
            '/',
        ) by {
            assert(pieces_from(s, cur)[k] == cur);
        }
    } else {
        if s[0] == '/' {
            lemma_pieces_have_no_slash(s.drop_first(), seq![]);
            let rest = pieces_from(s.drop_first(), seq![]);
            assert forall|k: int| 0 <= k < pieces_from(s, cur).len() implies !has_char(
                #[trigger] pieces_from(s, cur)[k],
                '/',
            ) by {
                if k > 0 {
                    assert(pieces_from(s, cur)[k] == rest[k - 1]);
                } else {
                    assert(pieces_from(s, cur)[k] == cur);
                }
            }
        } else {
            assert(!has_char(cur.push(s[0]), '/')) by {
                if has_char(cur.push(s[0]), '/') {
                    let i = choose|i: int| 0 <= i < cur.push(s[0]).len() && #[trigger] cur.push(s[0])[i] == '/';
                    if i < cur.len() {
                        assert(cur[i] == '/');
                    }
                }
            }
            lemma_pieces_have_no_slash(s.drop_first(), cur.push(s[0]));
            assert(pieces_from(s, cur) == pieces_from(s.drop_first(), cur.push(s[0])));
        }
    }
}

/// The name `last_named` gives is one of the pieces.
proof fn lemma_last_named_is_piece(ps: Seq<Seq<char>>)
    ensures
        last_named(ps) matches Some(n) ==> exists|k: int| 0 <= k < ps.len() && #[trigger] ps[k] == n,
    decreases ps.len(),
{
    if ps.len() > 0 {
        lemma_last_named_is_piece(ps.drop_last());
        if last_named(ps) is Some {
            if ps.last().len() == 0 || ps.last() == "."@ {
                let n = last_named(ps)->0;
                let k = choose|k: int| 0 <= k < ps.drop_last().len() && #[trigger] ps.drop_last()[k] == n;
                assert(ps[k] == n);
            } else {
                assert(ps[ps.len() - 1] == ps.last());
            }
        }
    }
}

/// A file name holds no slash.
proof fn lemma_file_name_has_no_slash(p: Seq<char>)
    ensures
        file_name(p) matches Some(n) ==> !has_char(n, '/'),
{
    lemma_pieces_have_no_slash(p, seq![]);
    lemma_last_named_is_piece(pieces(p));
    if file_name(p) is Some {
        let n = file_name(p)->0;
        let k = choose|k: int| 0 <= k < pieces(p).len() && #[trigger] pieces(p)[k] == n;
        assert(!has_char(pieces(p)[k], '/'));
    }
}

/// Joining a directory and a plain name (no slash, neither `.` nor `..`) gives a path whose
/// file name is that name.
proof fn lemma_join_file_name(dir: Seq<char>, x: Seq<char>)
    requires
        x.len() > 0,
        !has_char(x, '/'),
        x != "."@,
        x != ".."@,
    ensures
        file_name(join(dir, x)) == Some(x),
{
    reveal_strlit(".");
    reveal_strlit("..");
    assert(x[0] != '/');
    let j = join(dir, x);
    if dir.len() == 0 {
        assert(j =~= x);
        lemma_pieces_plain(x, seq![]);
        assert(seq![] + x =~= x);
    } else if dir.last() == '/' {
        assert(j =~= dir.drop_last() + seq!['/'] + x);
        lemma_pieces_last(dir.drop_last(), x, seq![]);
    } else {
        lemma_pieces_last(dir, x, seq![]);
    }
    assert(pieces(j).last() == x);
}

/// A profile's configuration file lies directly in its directory: it is the directory
/// joined with a plain name, `<directory name>.ovpn`, which is its file name. So the
/// configurations of directories with different names have different file names, and
/// NetworkManager's copies of their inline certificates, named after the file, cannot
/// collide.
pub proof fn lemma_config_file_named_after_directory(d1: Seq<char>, d2: Seq<char>)
    ensures
        ({
            let n1 = match file_name(d1) {
                Some(n) => n,
                None => seq![],
            };
            &&& config_file(d1) == join(d1, n1 + ".ovpn"@)
            &&& !has_char(n1 + ".ovpn"@, '/')
            &&& file_name(config_file(d1)) == Some(n1 + ".ovpn"@)
        }),
        file_name(d1) is Some && file_name(d2) is Some && file_name(d1) != file_name(d2) ==> file_name(
            config_file(d1),
        ) != file_name(config_file(d2)),
{
    reveal_strlit(".ovpn");
    reveal_strlit(".");
    reveal_strlit("..");
    lemma_file_name_has_no_slash(d1);
    lemma_file_name_has_no_slash(d2);
    let n1 = match file_name(d1) {
        Some(n) => n,
        None => seq![],
    };
    let n2 = match file_name(d2) {
        Some(n) => n,
        None => seq![],
    };
    let x1 = n1 + ".ovpn"@;
    let x2 = n2 + ".ovpn"@;
    assert(!has_char(x1, '/')) by {
        if has_char(x1, '/') {
            let i = choose|i: int| 0 <= i < x1.len() && #[trigger] x1[i] == '/';
            if i < n1.len() {
                assert(n1[i] == '/');
            }
        }
    }
    assert(!has_char(x2, '/')) by {
        if has_char(x2, '/') {
            let i = choose|i: int| 0 <= i < x2.len() && #[trigger] x2[i] == '/';
            if i < n2.len() {
                assert(n2[i] == '/');
            }
        }
    }
    assert(x1 != "."@ && x1 != ".."@) by {
        assert(x1.len() >= 5);
    }
    assert(x2 != "."@ && x2 != ".."@) by {
        assert(x2.len() >= 5);
    }
    lemma_join_file_name(d1, x1);
    lemma_join_file_name(d2, x2);
    if x1 == x2 {
        assert(n1 =~= x1.take(x1.len() - 5));
        assert(n2 =~= x2.take(x2.len() - 5));
    }
}

} // verus!
