//! Bundling an OpenVPN client configuration for NetworkManager.
//!
//! The configuration is read line by line. Inline certificate and key blocks, comments
//! and blank lines are kept as they are; directives that run programs or read other
//! configurations are refused; files that directives refer to are copied next to the
//! bundled configuration and the directives are rewritten to name the copies. The plan
//! computed here lists the file operations in the order the lines call for them; the
//! caller performs them, stopping at the first that fails.
use vstd::prelude::*;
use crate::paths::{join, join_path};
use crate::text::{
    append_chars, chars_eq, chars_of, decimal, decimal_chars, digit_char, ends_with, has_prefix, has_suffix, slice_chars, split_lines,
    starts_with, string_of, trim, trimmed, views, lines,
};

verus! {

/// What `shell_words::split` makes of a line: its words, or nothing when a quote is left open.
pub uninterp spec fn shell_split(line: Seq<char>) -> Option<Seq<Seq<char>>>;

/// What `str::to_uppercase` makes of a text (full Unicode upper-casing).
pub uninterp spec fn uppercase(s: Seq<char>) -> Seq<char>;

/// The character sequences of a sequence of strings.
pub open spec fn words_of(v: Seq<String>) -> Seq<Seq<char>> {
    Seq::new(v.len(), |i: int| v[i]@)
}

/// Calls `shell_words::split`, which splits a line into words the way a POSIX shell does.
///
/// Trusted: the words are the named result `shell_split`; a failure carries the text of the
/// crate's parse error, which its source writes as "missing closing quote".
#[verifier::external_body]
fn split_words(line: &str) -> (r: Result<Vec<String>, String>)
    ensures
        r matches Ok(v) ==> shell_split(line@) == Some(words_of(v@)),
        r matches Err(m) ==> shell_split(line@) is None && m@ == "missing closing quote"@,
{
    shell_words::split(line).map_err(|e| e.to_string())
}

/// Calls `str::to_uppercase`.
///
/// Trusted: the result is the named result `uppercase` of the text.
#[verifier::external_body]
fn to_upper(s: &str) -> (r: String)
    ensures
        r@ == uppercase(s@),
{
    s.to_uppercase()
}

/// The value of a nonempty sequence of ASCII digits.
pub open spec fn digits_value(s: Seq<char>) -> nat
    decreases s.len(),
{
    if s.len() == 0 {
        0
    } else {
        digits_value(s.drop_last()) * 10 + ((s.last() as u32) - ('0' as u32)) as nat
    }
}

/// Whether `s` consists of ASCII digits only.
pub open spec fn all_digits(s: Seq<char>) -> bool {
    forall|i: int| 0 <= i < s.len() ==> '0' <= #[trigger] s[i] && s[i] <= '9'
}

/// Whether `u16::from_str` accepts `s`: an optional `+`, then at least one digit, of a
/// value up to 65535.
pub open spec fn is_port_number(s: Seq<char>) -> bool {
    let d = if s.len() > 0 && s[0] == '+' { s.drop_first() } else { s };
    d.len() > 0 && all_digits(d) && digits_value(d) <= 65535
}

/// `s` after every leading `--` is removed (`trim_start_matches("--")`).
pub open spec fn strip_dashes(s: Seq<char>) -> Seq<char>
    decreases s.len(),
{
    if s.len() >= 2 && s[0] == '-' && s[1] == '-' {
        strip_dashes(s.skip(2))
    } else {
        s
    }
}

/// One character as OpenVPN reads it inside double quotes.
pub open spec fn escape_char(c: char) -> Seq<char> {
    if c == '\\' {
        seq!['\\', '\\']
    } else if c == '"' {
        seq!['\\', '"']
    } else {
        seq![c]
    }
}

/// `s` with backslashes and double quotes escaped by a backslash.
pub open spec fn escaped(s: Seq<char>) -> Seq<char>
    decreases s.len(),
{
    if s.len() == 0 {
        seq![]
    } else {
        escaped(s.drop_last()) + escape_char(s.last())
    }
}

/// The words joined with single spaces.
pub open spec fn spaced(ws: Seq<Seq<char>>) -> Seq<char>
    decreases ws.len(),
{
    if ws.len() == 0 {
        seq![]
    } else if ws.len() == 1 {
        ws[0]
    } else {
        spaced(ws.drop_last()) + " "@ + ws.last()
    }
}

/// Directives that run programs or read further configuration files.
pub open spec fn is_refused_key(k: Seq<char>) -> bool {
    ||| k == "up"@
    ||| k == "down"@
    ||| k == "route-up"@
    ||| k == "route-pre-down"@
    ||| k == "ipchange"@
    ||| k == "tls-verify"@
    ||| k == "plugin"@
    ||| k == "config"@
}

/// Directives whose first argument names a file to copy.
pub open spec fn is_file_key(k: Seq<char>) -> bool {
    ||| k == "ca"@
    ||| k == "cert"@
    ||| k == "key"@
    ||| k == "pkcs12"@
    ||| k == "tls-auth"@
    ||| k == "tls-crypt"@
    ||| k == "tls-crypt-v2"@
    ||| k == "crl-verify"@
    ||| k == "extra-certs"@
    ||| k == "auth-user-pass"@
    ||| k == "askpass"@
}

/// A file operation of a bundle plan.
pub enum StepView {
    /// Resolve `dir` against the current directory; it becomes the current directory.
    ChangeDir(Seq<char>),
    /// Copy the file `source` (resolved against the current directory) to `target`; `key`
    /// and `line` name the directive for messages.
    Copy { source: Seq<char>, target: Seq<char>, key: Seq<char>, line: nat },
}

/// Why a configuration is refused.
pub enum Fault {
    InvalidQuoting(nat),
    MissingDirectory,
    Refused(Seq<char>),
    UnclosedBlock,
    NoRemote,
}

/// The state after some lines of a configuration.
pub struct PlanView {
    /// The tag of the open inline block, if one is open.
    pub inline: Option<Seq<char>>,
    pub remote: Seq<char>,
    pub protocol: Seq<char>,
    pub port: Seq<char>,
    pub remote_port: Option<Seq<char>>,
    pub remote_protocol: Option<Seq<char>>,
    pub output: Seq<char>,
    pub steps: Seq<StepView>,
    pub failure: Option<Fault>,
}

/// The state before the first line.
pub open spec fn plan_start() -> PlanView {
    PlanView {
        inline: None,
        remote: seq![],
        protocol: "UDP"@,
        port: "1194"@,
        remote_port: None,
        remote_protocol: None,
        output: seq![],
        steps: seq![],
        failure: None,
    }
}

/// The word at `i`, or an empty one.
pub open spec fn word_at(ws: Seq<Seq<char>>, i: int) -> Seq<char> {
    if 0 <= i < ws.len() {
        ws[i]
    } else {
        seq![]
    }
}

/// Where the file of a directive is copied to: `<destination>/<index>-<key>`.
pub open spec fn copy_target(dest: Seq<char>, index: nat, key: Seq<char>) -> Seq<char> {
    join(dest, decimal(index) + "-"@ + key)
}

/// The state after the settings of a directive are read: the first `remote` line sets the
/// server (and its port and protocol when given); `proto`, `port` and `rport` set defaults.
pub open spec fn plan_settings(st: PlanView, ws: Seq<Seq<char>>, key: Seq<char>) -> PlanView {
    if key == "remote"@ && st.remote.len() == 0 {
        PlanView {
            remote: word_at(ws, 1),
            remote_port: if ws.len() > 2 && is_port_number(ws[2]) {
                Some(ws[2])
            } else {
                None
            },
            remote_protocol: if ws.len() > 3 {
                Some(ws[3])
            } else {
                None
            },
            ..st
        }
    } else if key == "proto"@ {
        PlanView { protocol: if ws.len() > 1 { ws[1] } else { st.protocol }, ..st }
    } else if key == "port"@ || key == "rport"@ {
        PlanView { port: if ws.len() > 1 { ws[1] } else { st.port }, ..st }
    } else {
        st
    }
}

/// Whether a directive's first argument names a file to copy.
pub open spec fn copies_file(ws: Seq<Seq<char>>, key: Seq<char>) -> bool {
    is_file_key(key) && ws.len() > 1 && ws[1] != "[inline]"@ && !starts_with(ws[1], "#"@)
        && !starts_with(ws[1], ";"@)
}

/// The state after a directive line (a line of words `ws`, the first being `key` without
/// its dashes).
pub open spec fn plan_directive(st: PlanView, index: nat, line: Seq<char>, ws: Seq<Seq<char>>, key: Seq<char>, dest: Seq<char>) -> PlanView {
    let st1 = plan_settings(st, ws, key);
    if key == "cd"@ {
        if ws.len() > 1 {
            PlanView { steps: st1.steps.push(StepView::ChangeDir(ws[1])), ..st1 }
        } else {
            PlanView { failure: Some(Fault::MissingDirectory), ..st1 }
        }
    } else if is_refused_key(key) {
        PlanView { failure: Some(Fault::Refused(key)), ..st1 }
    } else if copies_file(ws, key) {
        let target = copy_target(dest, index, key);
        let quoted = "\""@ + escaped(target) + "\""@;
        PlanView {
            steps: st1.steps.push(
                StepView::Copy { source: ws[1], target, key, line: index + 1 },
            ),
            output: st1.output + spaced(ws.update(1, quoted)) + "\n"@,
            ..st1
        }
    } else {
        PlanView { output: st1.output + line + "\n"@, ..st1 }
    }
}

/// The state after line `index`, with the bundle kept in `dest`.
pub open spec fn plan_line(st: PlanView, index: nat, line: Seq<char>, dest: Seq<char>) -> PlanView {
    let t = trim(line);
    if st.failure is Some {
        st
    } else if st.inline is Some {
        let tag = st.inline->0;
        PlanView {
            output: st.output + line + "\n"@,
            inline: if t == "</"@ + tag + ">"@ {
                None
            } else {
                st.inline
            },
            ..st
        }
    } else if starts_with(t, "<"@) && ends_with(t, ">"@) && t != "<connection>"@ && t
        != "</connection>"@ {
        PlanView { inline: Some(t.subrange(1, t.len() - 1)), output: st.output + line + "\n"@, ..st }
    } else if t.len() == 0 || starts_with(t, "#"@) || starts_with(t, ";"@) {
        PlanView { output: st.output + line + "\n"@, ..st }
    } else {
        match shell_split(t) {
            None => PlanView { failure: Some(Fault::InvalidQuoting(index + 1)), ..st },
            Some(ws) => if ws.len() == 0 {
                st
            } else {
                plan_directive(st, index, line, ws, strip_dashes(ws[0]), dest)
            },
        }
    }
}

/// The state after the first `n` lines of `ls`.
pub open spec fn plan_upto(ls: Seq<Seq<char>>, n: nat, dest: Seq<char>) -> PlanView
    decreases n,
{
    if n == 0 {
        plan_start()
    } else {
        plan_line(plan_upto(ls, (n - 1) as nat, dest), (n - 1) as nat, ls[n - 1], dest)
    }
}

/// The protocol summary shown for a profile, such as `TCP · 443`: TCP when the protocol
/// (of the first `remote` line, else of `proto`) starts with TCP in upper case, else UDP;
/// then the port (of the first `remote` line, else of `port`).
pub open spec fn protocol_label(st: PlanView) -> Seq<char> {
    let proto = uppercase(
        match st.remote_protocol {
            Some(p) => p,
            None => st.protocol,
        },
    );
    let port = match st.remote_port {
        Some(p) => p,
        None => st.port,
    };
    (if starts_with(proto, "TCP"@) {
        "TCP"@
    } else {
        "UDP"@
    }) + " · "@ + port
}

/// The whole plan for `content`, kept in `dest`: the file operations, and either the
/// bundled configuration text with the server and protocol summary, or why it is refused.
pub open spec fn plan_of(content: Seq<char>, dest: Seq<char>) -> (Seq<StepView>, Result<(Seq<char>, Seq<char>, Seq<char>), Fault>) {
    let ls = lines(content);
    let st = plan_upto(ls, ls.len(), dest);
    (
        st.steps,
        match st.failure {
            Some(f) => Err(f),
            None => if st.inline is Some {
                Err(Fault::UnclosedBlock)
            } else if st.remote.len() == 0 {
                Err(Fault::NoRemote)
            } else {
                Ok((st.output, st.remote, protocol_label(st)))
            },
        },
    )
}

/// A file operation of a bundle plan.
#[derive(Debug)]
pub enum BundleStep {
    /// Resolve the directory against the current directory; it becomes the current one.
    ChangeDir(String),
    /// Copy the file `source`, resolved against the current directory, to `target`.
    Copy { source: String, target: String, key: String, line: usize },
}

impl BundleStep {
    pub open spec fn view(self) -> StepView {
        match self {
            BundleStep::ChangeDir(d) => StepView::ChangeDir(d@),
            BundleStep::Copy { source, target, key, line } => StepView::Copy {
                source: source@,
                target: target@,
                key: key@,
                line: line as nat,
            },
        }
    }
}

/// Why a configuration is refused.
#[derive(Debug)]
pub enum BundleError {
    /// A line leaves a quote open; the line number and the splitter's reason.
    InvalidQuoting { line: usize, reason: String },
    /// A `cd` directive names no directory.
    MissingDirectory,
    /// A directive runs a program or reads another configuration.
    Refused(String),
    /// An inline block is never closed.
    UnclosedBlock,
    /// No `remote` line names a server.
    NoRemote,
}

impl BundleError {
    pub open spec fn view(self) -> Fault {
        match self {
            BundleError::InvalidQuoting { line, reason } => Fault::InvalidQuoting(line as nat),
            BundleError::MissingDirectory => Fault::MissingDirectory,
            BundleError::Refused(k) => Fault::Refused(k@),
            BundleError::UnclosedBlock => Fault::UnclosedBlock,
            BundleError::NoRemote => Fault::NoRemote,
        }
    }
}

/// The message shown for a refused configuration.
pub open spec fn bundle_error_text(e: BundleError) -> Seq<char> {
    match e {
        BundleError::InvalidQuoting { line, reason } => "Invalid quoting on line "@ + decimal(
            line as nat,
        ) + ": "@ + reason@,
        BundleError::MissingDirectory => "Missing directory after cd"@,
        BundleError::Refused(k) => "This configuration uses '"@ + k@
            + "', which this minimal NetworkManager app does not support."@,
        BundleError::UnclosedBlock => "The configuration contains an unclosed certificate or key block."@,
        BundleError::NoRemote => "No VPN server found. Choose an OpenVPN client configuration containing a 'remote' line."@,
    }
}

/// The bundled configuration with the server and protocol summary of the profile.
#[derive(Debug)]
pub struct Bundle {
    pub config: String,
    pub remote: String,
    pub protocol: String,
}

/// The plan for bundling one configuration.
#[derive(Debug)]
pub struct BundlePlan {
    pub steps: Vec<BundleStep>,
    pub outcome: Result<Bundle, BundleError>,
}

/// The step views of a sequence of steps.
pub open spec fn step_views(v: Seq<BundleStep>) -> Seq<StepView> {
    Seq::new(v.len(), |i: int| v[i].view())
}

/// Whether `u16::from_str` accepts `s`.
pub fn port_number(s: &[char]) -> (r: bool)
    ensures
        r == is_port_number(s@),
{
    let start: usize = if s.len() > 0 && s[0] == '+' { 1 } else { 0 };
    let ghost d = if s@.len() > 0 && s@[0] == '+' { s@.drop_first() } else { s@ };
    assert(d =~= s@.skip(start as int));
    if start >= s.len() {
        return false;
    }
    let mut value: u32 = 0;
    let mut i = start;
    while i < s.len()
        invariant
            start <= i <= s.len(),
            d == s@.skip(start as int),
            d == (if s@.len() > 0 && s@[0] == '+' { s@.drop_first() } else { s@ }),
            all_digits(s@.subrange(start as int, i as int)),
            value as nat == digits_value(s@.subrange(start as int, i as int)),
            value <= 65535,
        decreases s.len() - i,
    {
        let c = s[i];
        if c < '0' || c > '9' {
            assert(d[i - start] == c);
            assert(!all_digits(d));
            return false;
        }
        assert(s@.subrange(start as int, i + 1).drop_last() =~= s@.subrange(start as int, i as int));
        let next: u32 = value * 10 + ((c as u32) - ('0' as u32));
        if next > 65535 {
            proof {
                if all_digits(d) {
                    assert(s@.subrange(start as int, i + 1) =~= d.take(i + 1 - start));
                    lemma_digits_grow(s@.subrange(start as int, i + 1), d);
                }
            }
            return false;
        }
        value = next;
        i = i + 1;
    }
    assert(s@.subrange(start as int, s.len() as int) =~= d);
    true
}

/// The value of digits only grows as more digits follow.
proof fn lemma_digits_grow(prefix: Seq<char>, whole: Seq<char>)
    requires
        prefix.len() <= whole.len(),
        prefix == whole.take(prefix.len() as int),
        all_digits(whole),
    ensures
        digits_value(prefix) <= digits_value(whole),
    decreases whole.len() - prefix.len(),
{
    if prefix.len() < whole.len() {
        let longer = whole.take(prefix.len() as int + 1);
        assert(longer.drop_last() =~= prefix);
        assert('0' <= whole[prefix.len() as int]);
        lemma_digits_grow(longer, whole);
    } else {
        assert(prefix =~= whole);
    }
}

/// `s` after every leading `--` is removed.
fn without_dashes(s: &[char]) -> (r: Vec<char>)
    ensures
        r@ == strip_dashes(s@),
{
    let mut i: usize = 0;
    assert(s@.skip(0) =~= s@);
    while s.len() - i >= 2 && s[i] == '-' && s[i + 1] == '-'
        invariant
            i <= s.len(),
            strip_dashes(s@) == strip_dashes(s@.skip(i as int)),
        decreases s.len() - i,
    {
        assert(s@.skip(i as int).skip(2) =~= s@.skip(i + 2));
        i = i + 2;
    }
    slice_chars(s, i, s.len())
}

/// `s` with backslashes and double quotes escaped.
fn escape(s: &[char]) -> (r: Vec<char>)
    ensures
        r@ == escaped(s@),
{
    let mut r: Vec<char> = Vec::new();
    let mut i: usize = 0;
    while i < s.len()
        invariant
            i <= s.len(),
            r@ == escaped(s@.take(i as int)),
        decreases s.len() - i,
    {
        assert(s@.take(i + 1).drop_last() =~= s@.take(i as int));
        let ghost before = r@;
        let c = s[i];
        if c == '\\' {
            r.push('\\');
            r.push('\\');
        } else if c == '"' {
            r.push('\\');
            r.push('"');
        } else {
            r.push(c);
        }
        assert(r@ =~= before + escape_char(c));
        i = i + 1;
    }
    assert(s@.take(s.len() as int) =~= s@);
    r
}

/// The words joined with single spaces.
fn join_spaced(ws: &Vec<Vec<char>>) -> (r: Vec<char>)
    ensures
        r@ == spaced(views(ws@)),
{
    let ghost all = views(ws@);
    let mut r: Vec<char> = Vec::new();
    let mut i: usize = 0;
    while i < ws.len()
        invariant
            i <= ws.len(),
            all == views(ws@),
            r@ == spaced(all.take(i as int)),
        decreases ws.len() - i,
    {
        assert(all.take(i + 1).drop_last() =~= all.take(i as int));
        assert(all.take(i + 1).last() == ws@[i as int]@);
        if i > 0 {
            append_chars(&mut r, &chars_of(" "));
        } else {
            assert(all.take(1) =~= seq![ws@[0]@]);
            assert(r@ =~= Seq::<char>::empty());
        }
        append_chars(&mut r, &ws[i]);
        if i == 0 {
            assert(r@ =~= ws@[0]@);
        }
        i = i + 1;
    }
    assert(all.take(ws.len() as int) =~= all);
    r
}

/// Whether `s` is one of the given words.
fn is_one_of(s: &[char], words: &[&str]) -> (r: bool)
    ensures
        r == exists|i: int| 0 <= i < words@.len() && s@ == #[trigger] words@[i]@,
{
    let mut i: usize = 0;
    while i < words.len()
        invariant
            i <= words@.len(),
            forall|j: int| 0 <= j < i ==> s@ != #[trigger] words@[j]@,
        decreases words@.len() - i,
    {
        if chars_eq(s, &chars_of(words[i])) {
            assert(s@ == words@[i as int]@);
            return true;
        }
        i = i + 1;
    }
    false
}

fn refused_key(k: &[char]) -> (r: bool)
    ensures
        r == is_refused_key(k@),
{
    let words = ["up", "down", "route-up", "route-pre-down", "ipchange", "tls-verify", "plugin", "config"];
    let r = is_one_of(k, &words);
    proof {
        if is_refused_key(k@) {
            if k@ == "up"@ { assert(k@ == words@[0]@); }
            if k@ == "down"@ { assert(k@ == words@[1]@); }
            if k@ == "route-up"@ { assert(k@ == words@[2]@); }
            if k@ == "route-pre-down"@ { assert(k@ == words@[3]@); }
            if k@ == "ipchange"@ { assert(k@ == words@[4]@); }
            if k@ == "tls-verify"@ { assert(k@ == words@[5]@); }
            if k@ == "plugin"@ { assert(k@ == words@[6]@); }
            if k@ == "config"@ { assert(k@ == words@[7]@); }
        }
    }
    r
}

fn file_key(k: &[char]) -> (r: bool)
    ensures
        r == is_file_key(k@),
{
    let words = [
        "ca",
        "cert",
        "key",
        "pkcs12",
        "tls-auth",
        "tls-crypt",
        "tls-crypt-v2",
        "crl-verify",
        "extra-certs",
        "auth-user-pass",
        "askpass",
    ];
    let r = is_one_of(k, &words);
    proof {
        if is_file_key(k@) {
            if k@ == "ca"@ { assert(k@ == words@[0]@); }
            if k@ == "cert"@ { assert(k@ == words@[1]@); }
            if k@ == "key"@ { assert(k@ == words@[2]@); }
            if k@ == "pkcs12"@ { assert(k@ == words@[3]@); }
            if k@ == "tls-auth"@ { assert(k@ == words@[4]@); }
            if k@ == "tls-crypt"@ { assert(k@ == words@[5]@); }
            if k@ == "tls-crypt-v2"@ { assert(k@ == words@[6]@); }
            if k@ == "crl-verify"@ { assert(k@ == words@[7]@); }
            if k@ == "extra-certs"@ { assert(k@ == words@[8]@); }
            if k@ == "auth-user-pass"@ { assert(k@ == words@[9]@); }
            if k@ == "askpass"@ { assert(k@ == words@[10]@); }
        }
    }
    r
}


/// A copy of the characters.
fn copy_chars(v: &[char]) -> (r: Vec<char>)
    ensures
        r@ == v@,
{
    let r = slice_chars(v, 0, v.len());
    assert(r@ =~= v@);
    r
}

/// Optional characters as a sequence.
pub open spec fn opt_chars(o: Option<Vec<char>>) -> Option<Seq<char>> {
    match o {
        Some(v) => Some(v@),
        None => None,
    }
}

/// The fault of an optional error.
pub open spec fn opt_fault(o: Option<BundleError>) -> Option<Fault> {
    match o {
        Some(e) => Some(e.view()),
        None => None,
    }
}

/// Appends a line and a line feed.
fn push_line(out: &mut Vec<char>, line: &[char])
    ensures
        final(out)@ == old(out)@ + line@ + "\n"@,
{
    append_chars(out, line);
    out.push('\n');
    proof {
        reveal_strlit("\n");
    }
    assert(final(out)@ =~= old(out)@ + line@ + "\n"@);
}

/// The state of the line-by-line reading of a configuration.
pub struct Planner {
    inline: Option<Vec<char>>,
    remote: Vec<char>,
    protocol: Vec<char>,
    port: Vec<char>,
    remote_port: Option<Vec<char>>,
    remote_protocol: Option<Vec<char>>,
    output: Vec<char>,
    steps: Vec<BundleStep>,
    failure: Option<BundleError>,
}

impl Planner {
    pub closed spec fn view(&self) -> PlanView {
        PlanView {
            inline: opt_chars(self.inline),
            remote: self.remote@,
            protocol: self.protocol@,
            port: self.port@,
            remote_port: opt_chars(self.remote_port),
            remote_protocol: opt_chars(self.remote_protocol),
            output: self.output@,
            steps: step_views(self.steps@),
            failure: opt_fault(self.failure),
        }
    }

    /// A quoting failure carries the splitter's message.
    pub closed spec fn reasons_known(&self) -> bool {
        self.failure matches Some(BundleError::InvalidQuoting { reason, .. }) ==> reason@
            == "missing closing quote"@
    }

    fn new() -> (r: Planner)
        ensures
            r.view() == plan_start(),
            r.reasons_known(),
    {
        let r = Planner {
            inline: None,
            remote: Vec::new(),
            protocol: chars_of("UDP"),
            port: chars_of("1194"),
            remote_port: None,
            remote_protocol: None,
            output: Vec::new(),
            steps: Vec::new(),
            failure: None,
        };
        assert(step_views(r.steps@) =~= Seq::<StepView>::empty());
        assert(r.view() =~= plan_start());
        r
    }

    fn push_step(&mut self, step: BundleStep)
        ensures
            final(self).view() == (PlanView { steps: old(self).view().steps.push(step.view()), ..old(self).view() }),
    {
        let ghost v = step.view();
        self.steps.push(step);
        assert(step_views(self.steps@) =~= step_views(old(self).steps@).push(v));
    }

    /// Reads the settings of a directive.
    fn read_settings(&mut self, ws: &Vec<Vec<char>>, key: &[char])
        requires
            ws.len() > 0,
        ensures
            final(self).view() == plan_settings(old(self).view(), views(ws@), key@),
    {
        let ghost all = views(ws@);
        if chars_eq(key, &chars_of("remote")) && self.remote.len() == 0 {
            self.remote = if ws.len() > 1 {
                copy_chars(&ws[1])
            } else {
                Vec::new()
            };
            self.remote_port = if ws.len() > 2 && port_number(&ws[2]) {
                Some(copy_chars(&ws[2]))
            } else {
                None
            };
            self.remote_protocol = if ws.len() > 3 {
                Some(copy_chars(&ws[3]))
            } else {
                None
            };
            assert(self.remote@ =~= word_at(all, 1));
        } else if chars_eq(key, &chars_of("proto")) {
            if ws.len() > 1 {
                self.protocol = copy_chars(&ws[1]);
            }
        } else if chars_eq(key, &chars_of("port")) || chars_eq(key, &chars_of("rport")) {
            if ws.len() > 1 {
                self.port = copy_chars(&ws[1]);
            }
        }
        assert(self.view() =~= plan_settings(old(self).view(), all, key@));
    }

    /// Reads one directive line of words `ws`, the first being `key` without its dashes.
    fn read_directive(&mut self, index: usize, line: &[char], ws: &Vec<Vec<char>>, key: &[char], dest: &str)
        requires
            ws.len() > 0,
            index < usize::MAX,
            old(self).view().failure is None,
        ensures
            final(self).view() == plan_directive(old(self).view(), index as nat, line@, views(ws@), key@, dest@),
    {
        let ghost all = views(ws@);
        self.read_settings(ws, key);
        let ghost st1 = self.view();
        if chars_eq(key, &chars_of("cd")) {
            if ws.len() > 1 {
                self.push_step(BundleStep::ChangeDir(string_of(&ws[1])));
            } else {
                self.failure = Some(BundleError::MissingDirectory);
                assert(self.view() =~= (PlanView { failure: Some(Fault::MissingDirectory), ..st1 }));
            }
            return;
        }
        if refused_key(key) {
            self.failure = Some(BundleError::Refused(string_of(key)));
            assert(self.view() =~= (PlanView { failure: Some(Fault::Refused(key@)), ..st1 }));
            return;
        }
        if file_key(key) && ws.len() > 1 && !chars_eq(&ws[1], &chars_of("[inline]")) && !has_prefix(
            &ws[1],
            &chars_of("#"),
        ) && !has_prefix(&ws[1], &chars_of(";")) {
            assert(copies_file(all, key@));
            let mut name = decimal_chars(index as u64);
            append_chars(&mut name, &chars_of("-"));
            append_chars(&mut name, key);
            let target = join_path(dest, string_of(&name).as_str());
            let mut quoted: Vec<char> = Vec::new();
            quoted.push('"');
            append_chars(&mut quoted, &escape(&chars_of(target.as_str())));
            quoted.push('"');
            proof {
                reveal_strlit("\"");
            }
            assert(quoted@ =~= "\""@ + escaped(target@) + "\""@);
            let mut rewritten: Vec<Vec<char>> = Vec::new();
            let mut i: usize = 0;
            while i < ws.len()
                invariant
                    i <= ws.len(),
                    ws.len() > 1,
                    all == views(ws@),
                    views(rewritten@) == all.update(1, quoted@).take(i as int),
                decreases ws.len() - i,
            {
                let ghost before = views(rewritten@);
                let item = if i == 1 {
                    copy_chars(&quoted)
                } else {
                    copy_chars(&ws[i])
                };
                let ghost iv = item@;
                rewritten.push(item);
                assert(views(rewritten@) =~= before.push(iv));
                assert(before.push(iv) =~= all.update(1, quoted@).take(i + 1));
                i = i + 1;
            }
            assert(all.update(1, quoted@).take(ws.len() as int) =~= all.update(1, quoted@));
            let joined = join_spaced(&rewritten);
            self.push_step(
                BundleStep::Copy {
                    source: string_of(&ws[1]),
                    target,
                    key: string_of(key),
                    line: index + 1,
                },
            );
            push_line(&mut self.output, &joined);
            assert(self.view() =~= plan_directive(old(self).view(), index as nat, line@, all, key@, dest@));
            return;
        }
        push_line(&mut self.output, line);
        assert(self.view() =~= plan_directive(old(self).view(), index as nat, line@, all, key@, dest@));
    }

    /// Reads line `index` of the configuration.
    fn read_line(&mut self, index: usize, line: &[char], dest: &str)
        requires
            index < usize::MAX,
            old(self).reasons_known(),
        ensures
            final(self).view() == plan_line(old(self).view(), index as nat, line@, dest@),
            final(self).reasons_known(),
    {
        if self.failure.is_some() {
            return;
        }
        let t = trimmed(line);
        let ghost st = self.view();
        if self.inline.is_some() {
            let tag = copy_chars(self.inline.as_ref().unwrap());
            let mut closing = chars_of("</");
            append_chars(&mut closing, &tag);
            append_chars(&mut closing, &chars_of(">"));
            push_line(&mut self.output, line);
            if chars_eq(&t, &closing) {
                self.inline = None;
            }
            assert(self.view() =~= plan_line(st, index as nat, line@, dest@));
            return;
        }
        if has_prefix(&t, &chars_of("<")) && has_suffix(&t, &chars_of(">")) && !chars_eq(
            &t,
            &chars_of("<connection>"),
        ) && !chars_eq(&t, &chars_of("</connection>")) {
            proof {
                reveal_strlit("<");
                reveal_strlit(">");
            }
            assert(t@.len() >= 2) by {
                if t@.len() == 1 {
                    assert(t@.take(1) =~= t@);
                    assert(t@.skip(0) =~= t@);
                    assert(t@ == "<"@);
                    assert(t@ == ">"@);
                    assert("<"@[0] != ">"@[0]);
                }
            }
            self.inline = Some(slice_chars(&t, 1, t.len() - 1));
            push_line(&mut self.output, line);
            assert(self.view() =~= plan_line(st, index as nat, line@, dest@));
            return;
        }
        if t.len() == 0 || has_prefix(&t, &chars_of("#")) || has_prefix(&t, &chars_of(";")) {
            push_line(&mut self.output, line);
            assert(self.view() =~= plan_line(st, index as nat, line@, dest@));
            return;
        }
        match split_words(string_of(&t).as_str()) {
            Err(reason) => {
                self.failure = Some(BundleError::InvalidQuoting { line: index + 1, reason });
                assert(self.view() =~= plan_line(st, index as nat, line@, dest@));
            },
            Ok(words) => {
                let mut ws: Vec<Vec<char>> = Vec::new();
                let mut i: usize = 0;
                while i < words.len()
                    invariant
                        i <= words@.len(),
                        views(ws@) == words_of(words@).take(i as int),
                    decreases words@.len() - i,
                {
                    let ghost before = views(ws@);
                    let item = chars_of(words[i].as_str());
                    let ghost iv = item@;
                    ws.push(item);
                    assert(views(ws@) =~= before.push(iv));
                    assert(before.push(iv) =~= words_of(words@).take(i + 1));
                    i = i + 1;
                }
                assert(words_of(words@).take(words@.len() as int) =~= words_of(words@));
                if ws.len() == 0 {
                    return;
                }
                let key = without_dashes(&ws[0]);
                self.read_directive(index, line, &ws, &key, dest);
            },
        }
    }
}

/// Plans the bundling of the configuration `content` into the directory `destination`.
pub fn plan_bundle(content: &str, destination: &str) -> (r: BundlePlan)
    ensures
        (step_views(r.steps@), match r.outcome {
            Ok(b) => Ok((b.config@, b.remote@, b.protocol@)),
            Err(e) => Err(e.view()),
        }) == plan_of(content@, destination@),
        r.outcome matches Err(BundleError::InvalidQuoting { reason, .. }) ==> reason@ == "missing closing quote"@,
{
    let ls = split_lines(&chars_of(content));
    let ghost all = views(ls@);
    let mut planner = Planner::new();
    let mut i: usize = 0;
    while i < ls.len()
        invariant
            i <= ls.len(),
            all == views(ls@),
            all == lines(content@),
            planner.view() == plan_upto(all, i as nat, destination@),
            planner.reasons_known(),
        decreases ls.len() - i,
    {
        planner.read_line(i, &ls[i], destination);
        i = i + 1;
    }
    let ghost st = planner.view();
    let Planner { inline, remote, protocol, port, remote_port, remote_protocol, output, steps, failure } =
        planner;
    let outcome = match failure {
        Some(e) => Err(e),
        None => if inline.is_some() {
            Err(BundleError::UnclosedBlock)
        } else if remote.len() == 0 {
            Err(BundleError::NoRemote)
        } else {
            let proto = match remote_protocol {
                Some(p) => p,
                None => protocol,
            };
            let upper = chars_of(to_upper(string_of(&proto).as_str()).as_str());
            let mut label = if has_prefix(&upper, &chars_of("TCP")) {
                chars_of("TCP")
            } else {
                chars_of("UDP")
            };
            append_chars(&mut label, &chars_of(" · "));
            let chosen = match remote_port {
                Some(p) => p,
                None => port,
            };
            append_chars(&mut label, &chosen);
            Ok(Bundle { config: string_of(&output), remote: string_of(&remote), protocol: string_of(&label) })
        },
    };
    BundlePlan { steps, outcome }
}

impl BundleError {
    /// The message shown for this refusal.
    pub fn message(&self) -> (r: String)
        ensures
            r@ == bundle_error_text(*self),
    {
        match self {
            BundleError::InvalidQuoting { line, reason } => {
                let mut m = chars_of("Invalid quoting on line ");
                append_chars(&mut m, &decimal_chars(*line as u64));
                append_chars(&mut m, &chars_of(": "));
                append_chars(&mut m, &chars_of(reason.as_str()));
                string_of(&m)
            },
            BundleError::MissingDirectory => String::from_str("Missing directory after cd"),
            BundleError::Refused(k) => String::from_str("This configuration uses '").concat(k.as_str()).concat(
                "', which this minimal NetworkManager app does not support.",
            ),
            BundleError::UnclosedBlock => String::from_str(
                "The configuration contains an unclosed certificate or key block.",
            ),
            BundleError::NoRemote => String::from_str(
                "No VPN server found. Choose an OpenVPN client configuration containing a 'remote' line.",
            ),
        }
    }
}

/// An accepted configuration names a server, and its protocol summary reads
/// `TCP · <port>` or `UDP · <port>`.
pub proof fn lemma_accepted_names_server(content: Seq<char>, dest: Seq<char>)
    ensures
        plan_of(content, dest).1 matches Ok((config, remote, label)) ==> {
            &&& remote.len() > 0
            &&& (exists|port: Seq<char>| label == "TCP"@ + " · "@ + port || label == "UDP"@ + " · "@ + port)
        },
{
    let ls = lines(content);
    let st = plan_upto(ls, ls.len(), dest);
    if plan_of(content, dest).1 is Ok {
        let port = match st.remote_port {
            Some(p) => p,
            None => st.port,
        };
        assert(protocol_label(st) == "TCP"@ + " · "@ + port || protocol_label(st) == "UDP"@ + " · "@ + port);
    }
}

/// A decimal numeral is made of digits, and its value is the number it writes.
proof fn lemma_decimal_digits(n: nat)
    ensures
        decimal(n).len() > 0,
        all_digits(decimal(n)),
        digits_value(decimal(n)) == n,
    decreases n,
{
    let last = n % 10;
    assert(((digit_char(last) as u32) - ('0' as u32)) as nat == last);
    assert(decimal(n).last() == digit_char(last));
    assert(digits_value(decimal(n)) == digits_value(decimal(n).drop_last()) * 10 + last);
    if n < 10 {
        assert(decimal(n).drop_last() =~= Seq::<char>::empty());
        assert(digits_value(Seq::<char>::empty()) == 0);
    } else {
        lemma_decimal_digits(n / 10);
        let d = decimal(n / 10);
        assert(decimal(n).drop_last() =~= d);
        assert forall|i: int| 0 <= i < decimal(n).len() implies '0' <= #[trigger] decimal(n)[i] && decimal(
            n,
        )[i] <= '9' by {
            if i < d.len() {
                assert(decimal(n)[i] == d[i]);
            }
        }
    }
}

/// The name a copied file gets tells the line it came from: `<a>-<key>` and `<b>-<key2>`
/// are the same name only for the same line.
proof fn lemma_copy_name_tells_line(a: nat, b: nat, k1: Seq<char>, k2: Seq<char>)
    requires
        decimal(a) + "-"@ + k1 == decimal(b) + "-"@ + k2,
    ensures
        a == b,
{
    reveal_strlit("-");
    lemma_decimal_digits(a);
    lemma_decimal_digits(b);
    let s = decimal(a) + "-"@ + k1;
    let t = decimal(b) + "-"@ + k2;
    let da = decimal(a);
    let db = decimal(b);
    if da.len() < db.len() {
        assert(s[da.len() as int] == '-');
        assert(t[da.len() as int] == db[da.len() as int]);
    } else if db.len() < da.len() {
        assert(t[db.len() as int] == '-');
        assert(s[db.len() as int] == da[db.len() as int]);
    }
    assert(da.len() == db.len());
    assert(da =~= s.take(da.len() as int));
    assert(db =~= t.take(db.len() as int));
}

/// Whether the copies among `steps` come from strictly increasing lines, at most `n`, and
/// each goes to the name made from its line and key.
pub open spec fn copies_in_line_order(steps: Seq<StepView>, dest: Seq<char>, n: nat) -> bool {
    &&& forall|i: int|
        0 <= i < steps.len() && (#[trigger] steps[i]) is Copy ==> 1 <= steps[i]->line <= n
            && steps[i]->target == copy_target(dest, (steps[i]->line - 1) as nat, steps[i]->key)
    &&& forall|i: int, j: int|
        0 <= i < j < steps.len() && (#[trigger] steps[i]) is Copy && (#[trigger] steps[j]) is Copy
            ==> steps[i]->line < steps[j]->line
}

/// Reading a line adds at most one step; a copy it adds names that line.
proof fn lemma_plan_line_step(st: PlanView, index: nat, line: Seq<char>, dest: Seq<char>)
    ensures
        ({
            let next = plan_line(st, index, line, dest);
            ||| next.steps == st.steps
            ||| next.steps.len() == st.steps.len() + 1 && next.steps.drop_last() == st.steps && (next.steps.last() is Copy
                ==> next.steps.last()->line == index + 1 && next.steps.last()->target == copy_target(
                dest,
                index,
                next.steps.last()->key,
            ))
        }),
{
    let next = plan_line(st, index, line, dest);
    if next.steps != st.steps {
        let t = trim(line);
        let ws = shell_split(t)->0;
        let key = strip_dashes(ws[0]);
        let st1 = plan_settings(st, ws, key);
        assert(st1.steps == st.steps);
        if key == "cd"@ {
            assert(next.steps =~= st.steps.push(StepView::ChangeDir(ws[1])));
        } else {
            assert(next.steps =~= st.steps.push(
                StepView::Copy { source: ws[1], target: copy_target(dest, index, key), key, line: index + 1 },
            ));
        }
        assert(next.steps.drop_last() =~= st.steps);
    }
}

/// The copies of a plan come in line order and are named after their lines.
proof fn lemma_plan_copies_in_line_order(ls: Seq<Seq<char>>, n: nat, dest: Seq<char>)
    ensures
        copies_in_line_order(plan_upto(ls, n, dest).steps, dest, n),
    decreases n,
{
    if n > 0 {
        let m = (n - 1) as nat;
        lemma_plan_copies_in_line_order(ls, m, dest);
        let before = plan_upto(ls, m, dest).steps;
        let after = plan_upto(ls, n, dest).steps;
        lemma_plan_line_step(plan_upto(ls, m, dest), m, ls[m as int], dest);
        if after != before {
            assert forall|i: int| 0 <= i < after.len() && (#[trigger] after[i]) is Copy implies 1 <= after[i]->line
                <= n && after[i]->target == copy_target(dest, (after[i]->line - 1) as nat, after[i]->key) by {
                if i < before.len() {
                    assert(after[i] == before[i]);
                }
            }
            assert forall|i: int, j: int|
                0 <= i < j < after.len() && (#[trigger] after[i]) is Copy && (#[trigger] after[j]) is Copy implies after[i]->line
                < after[j]->line by {
                assert(after[i] == before[i]);
                if j < before.len() {
                    assert(after[j] == before[j]);
                }
            }
        }
    }
}

/// The files a configuration refers to are copied to names that differ from one another, so
/// no copy overwrites another.
pub proof fn lemma_copy_targets_distinct(content: Seq<char>, dest: Seq<char>, i: int, j: int)
    requires
        0 <= i < j < plan_of(content, dest).0.len(),
        plan_of(content, dest).0[i] is Copy,
        plan_of(content, dest).0[j] is Copy,
    ensures
        plan_of(content, dest).0[i]->target != plan_of(content, dest).0[j]->target,
{
    let ls = lines(content);
    let steps = plan_of(content, dest).0;
    lemma_plan_copies_in_line_order(ls, ls.len(), dest);
    let a = steps[i];
    let b = steps[j];
    assert(a->line < b->line);
    let na = decimal((a->line - 1) as nat) + "-"@ + a->key;
    let nb = decimal((b->line - 1) as nat) + "-"@ + b->key;
    lemma_decimal_digits((a->line - 1) as nat);
    lemma_decimal_digits((b->line - 1) as nat);
    if a->target == b->target {
        assert(na[0] == decimal((a->line - 1) as nat)[0]);
        assert(nb[0] == decimal((b->line - 1) as nat)[0]);
        if dest.len() == 0 || dest.last() == '/' {
            assert(na =~= a->target.skip(dest.len() as int));
            assert(nb =~= b->target.skip(dest.len() as int));
        } else {
            assert(na =~= a->target.skip(dest.len() + 1int));
            assert(nb =~= b->target.skip(dest.len() + 1int));
        }
        lemma_copy_name_tells_line((a->line - 1) as nat, (b->line - 1) as nat, a->key, b->key);
    }
}

/// Once a line refuses the configuration, the later lines change nothing.
proof fn lemma_refusal_stays(ls: Seq<Seq<char>>, i: nat, n: nat, dest: Seq<char>)
    requires
        i <= n <= ls.len(),
        plan_upto(ls, i, dest).failure is Some,
    ensures
        plan_upto(ls, n, dest) == plan_upto(ls, i, dest),
    decreases n,
{
    if n > i {
        lemma_refusal_stays(ls, i, (n - 1) as nat, dest);
    }
}

/// A directive that runs a program or reads another configuration (`up`, `down`,
/// `route-up`, `route-pre-down`, `ipchange`, `tls-verify`, `plugin`, `config`), given with
/// or without leading dashes on a line outside inline blocks, refuses the configuration
/// when no earlier line did: the refusal names the directive, and no step is planned after
/// the lines before it, so nothing of it is carried out.
pub proof fn lemma_refused_directive(content: Seq<char>, dest: Seq<char>, i: nat, ws: Seq<Seq<char>>)
    requires
        i < lines(content).len(),
        plan_upto(lines(content), i, dest).failure is None,
        plan_upto(lines(content), i, dest).inline is None,
        trim(lines(content)[i as int]).len() > 0,
        !starts_with(trim(lines(content)[i as int]), "<"@),
        !starts_with(trim(lines(content)[i as int]), "#"@),
        !starts_with(trim(lines(content)[i as int]), ";"@),
        shell_split(trim(lines(content)[i as int])) == Some(ws),
        ws.len() > 0,
        is_refused_key(strip_dashes(ws[0])),
    ensures
        plan_of(content, dest).1 == Err::<(Seq<char>, Seq<char>, Seq<char>), Fault>(
            Fault::Refused(strip_dashes(ws[0])),
        ),
        plan_of(content, dest).0 == plan_upto(lines(content), i, dest).steps,
{
    reveal_strlit("cd");
    reveal_strlit("up");
    reveal_strlit("down");
    reveal_strlit("route-up");
    reveal_strlit("route-pre-down");
    reveal_strlit("ipchange");
    reveal_strlit("tls-verify");
    reveal_strlit("plugin");
    reveal_strlit("config");
    let ls = lines(content);
    let key = strip_dashes(ws[0]);
    assert(key != "cd"@);
    let st = plan_upto(ls, i, dest);
    let next = plan_upto(ls, i + 1, dest);
    assert(next == plan_line(st, i, ls[i as int], dest));
    assert(plan_settings(st, ws, key).failure is None);
    assert(next.failure == Some(Fault::Refused(key)));
    assert(next.steps == st.steps);
    lemma_refusal_stays(ls, i + 1, ls.len(), dest);
}

/// Whether line `i` of `ls` is the first `remote` directive that names a server: it stands
/// outside inline blocks, no earlier line refused the configuration or named a server, and
/// its words are `ws`, the second naming the server.
pub open spec fn first_server_line(ls: Seq<Seq<char>>, dest: Seq<char>, i: int, ws: Seq<Seq<char>>) -> bool {
    let st = plan_upto(ls, i as nat, dest);
    let t = trim(ls[i]);
    &&& 0 <= i < ls.len()
    &&& st.failure is None
    &&& st.inline is None
    &&& st.remote.len() == 0
    &&& t.len() > 0
    &&& !(starts_with(t, "<"@) && ends_with(t, ">"@) && t != "<connection>"@ && t != "</connection>"@)
    &&& !starts_with(t, "#"@)
    &&& !starts_with(t, ";"@)
    &&& shell_split(t) == Some(ws)
    &&& ws.len() > 1
    &&& strip_dashes(ws[0]) == "remote"@
    &&& ws[1].len() > 0
}

/// What the first server line sets: the server, and the port and protocol it gives.
pub open spec fn set_by_server_line(st: PlanView, ws: Seq<Seq<char>>) -> bool {
    &&& st.remote == ws[1]
    &&& st.remote_port == if ws.len() > 2 && is_port_number(ws[2]) {
        Some(ws[2])
    } else {
        None::<Seq<char>>
    }
    &&& st.remote_protocol == if ws.len() > 3 {
        Some(ws[3])
    } else {
        None::<Seq<char>>
    }
}

/// After `n` lines, a server that is set comes from the first server line.
proof fn lemma_server_from_first_line(ls: Seq<Seq<char>>, n: nat, dest: Seq<char>)
    requires
        n <= ls.len(),
    ensures
        plan_upto(ls, n, dest).remote.len() > 0 ==> exists|i: int, ws: Seq<Seq<char>>|
            #[trigger] first_server_line(ls, dest, i, ws) && i < n && set_by_server_line(plan_upto(ls, n, dest), ws),
    decreases n,
{
    reveal_strlit("remote");
    if n > 0 {
        let m = (n - 1) as nat;
        lemma_server_from_first_line(ls, m, dest);
        let st = plan_upto(ls, m, dest);
        let next = plan_upto(ls, n, dest);
        assert(next == plan_line(st, m, ls[m as int], dest));
        if st.remote.len() > 0 {
            let (i, ws) = choose|i: int, ws: Seq<Seq<char>>|
                #[trigger] first_server_line(ls, dest, i, ws) && i < m && set_by_server_line(st, ws);
            assert(next.remote == st.remote && next.remote_port == st.remote_port && next.remote_protocol
                == st.remote_protocol);
            assert(first_server_line(ls, dest, i, ws));
        } else if next.remote.len() > 0 {
            let t = trim(ls[m as int]);
            let ws = shell_split(t)->0;
            assert(first_server_line(ls, dest, m as int, ws));
        }
    }
}

/// An accepted configuration's server is the second word of its first `remote` line that
/// names one, outside inline blocks. Its protocol summary is `TCP` when the protocol (that
/// line's fourth word, else the plan's `proto` setting) starts with TCP in upper case, else
/// `UDP`, then ` · ` and the port (that line's third word when it is a port number, else the
/// plan's `port` setting).
pub proof fn lemma_server_and_summary(content: Seq<char>, dest: Seq<char>)
    ensures
        plan_of(content, dest).1 matches Ok((config, remote, label)) ==> exists|i: int, ws: Seq<Seq<char>>|
            #[trigger] first_server_line(lines(content), dest, i, ws) && remote == ws[1] && label == ({
                let st = plan_upto(lines(content), lines(content).len(), dest);
                let proto = uppercase(if ws.len() > 3 { ws[3] } else { st.protocol });
                let port = if ws.len() > 2 && is_port_number(ws[2]) { ws[2] } else { st.port };
                (if starts_with(proto, "TCP"@) { "TCP"@ } else { "UDP"@ }) + " · "@ + port
            }),
{
    let ls = lines(content);
    lemma_server_from_first_line(ls, ls.len(), dest);
    if plan_of(content, dest).1 is Ok {
        let st = plan_upto(ls, ls.len(), dest);
        let (i, ws) = choose|i: int, ws: Seq<Seq<char>>|
            #[trigger] first_server_line(ls, dest, i, ws) && i < ls.len() && set_by_server_line(st, ws);
        assert(first_server_line(ls, dest, i, ws));
    }
}

/// The texts of `ps`, one after another.
pub open spec fn concat(ps: Seq<Seq<char>>) -> Seq<char>
    decreases ps.len(),
{
    if ps.len() == 0 {
        seq![]
    } else {
        concat(ps.drop_last()) + ps.last()
    }
}

/// What line `i` of `ls` adds to the bundled configuration.
pub open spec fn added_by(ls: Seq<Seq<char>>, dest: Seq<char>, i: int) -> Seq<char> {
    plan_upto(ls, (i + 1) as nat, dest).output.skip(plan_upto(ls, i as nat, dest).output.len() as int)
}

/// What each of the first `n` lines of `ls` adds to the bundled configuration.
pub open spec fn added_upto(ls: Seq<Seq<char>>, dest: Seq<char>, n: nat) -> Seq<Seq<char>> {
    Seq::new(n, |i: int| added_by(ls, dest, i))
}

/// Whether a trimmed line is kept as it is without being read as a directive: an inline
/// block tag (`<ca>`, `</ca>`, but not `<connection>`), a blank line or a comment.
pub open spec fn kept_verbatim(t: Seq<char>) -> bool {
    ||| (starts_with(t, "<"@) && ends_with(t, ">"@) && t != "<connection>"@ && t != "</connection>"@)
    ||| t.len() == 0
    ||| starts_with(t, "#"@)
    ||| starts_with(t, ";"@)
}

/// What line `i` adds to the bundled text when read in state `st` without refusing it:
/// the line itself inside an inline block, for a block tag, a blank line or a comment, and
/// for a directive that names no file; nothing for a `cd` directive or a line without
/// words; and for a directive that names a file, the directive with that file replaced by
/// the quoted name of its copy, `<destination>/<i>-<key>`.
pub open spec fn line_adds(st: PlanView, i: nat, line: Seq<char>, dest: Seq<char>) -> Seq<char> {
    let t = trim(line);
    if st.inline is Some || kept_verbatim(t) {
        line + "\n"@
    } else {
        match shell_split(t) {
            None => seq![],
            Some(ws) => if ws.len() == 0 {
                seq![]
            } else {
                let key = strip_dashes(ws[0]);
                if key == "cd"@ || is_refused_key(key) {
                    seq![]
                } else if copies_file(ws, key) {
                    spaced(ws.update(1, "\""@ + escaped(copy_target(dest, i, key)) + "\""@)) + "\n"@
                } else {
                    line + "\n"@
                }
            },
        }
    }
}

proof fn lemma_line_adds(st: PlanView, i: nat, line: Seq<char>, dest: Seq<char>)
    requires
        plan_line(st, i, line, dest).failure is None,
    ensures
        ({
            let next = plan_line(st, i, line, dest);
            &&& next.output == st.output + next.output.skip(st.output.len() as int)
            &&& next.output.skip(st.output.len() as int) == line_adds(st, i, line, dest)
        }),
{
    let next = plan_line(st, i, line, dest);
    let a = next.output.skip(st.output.len() as int);
    let t = trim(line);
    assert(st.failure is None);
    if st.inline is Some || (starts_with(t, "<"@) && ends_with(t, ">"@) && t != "<connection>"@ && t
        != "</connection>"@) || t.len() == 0 || starts_with(t, "#"@) || starts_with(t, ";"@) {
        assert(a =~= line + "\n"@);
    } else {
        let ws = shell_split(t)->0;
        if ws.len() == 0 {
            assert(a =~= Seq::<char>::empty());
        } else {
            let key = strip_dashes(ws[0]);
            let st1 = plan_settings(st, ws, key);
            assert(st1.output == st.output);
            if key == "cd"@ {
                assert(a =~= Seq::<char>::empty());
            } else if copies_file(ws, key) {
                let quoted = "\""@ + escaped(copy_target(dest, i, key)) + "\""@;
                assert(a =~= spaced(ws.update(1, quoted)) + "\n"@);
            } else {
                assert(a =~= line + "\n"@);
            }
        }
    }
    assert(next.output =~= st.output + a);
}

/// The first `n` lines, none refusing the configuration, build its text piece by piece.
proof fn lemma_output_by_lines(ls: Seq<Seq<char>>, n: nat, dest: Seq<char>)
    requires
        n <= ls.len(),
        plan_upto(ls, n, dest).failure is None,
    ensures
        plan_upto(ls, n, dest).output == concat(added_upto(ls, dest, n)),
        forall|i: int|
            0 <= i < n ==> #[trigger] added_by(ls, dest, i) == line_adds(plan_upto(ls, i as nat, dest), i as nat, ls[i], dest),
    decreases n,
{
    if n == 0 {
        assert(added_upto(ls, dest, 0) =~= Seq::<Seq<char>>::empty());
    } else {
        let m = (n - 1) as nat;
        let st = plan_upto(ls, m, dest);
        assert(plan_upto(ls, n, dest) == plan_line(st, m, ls[m as int], dest));
        if st.failure is Some {
            assert(plan_upto(ls, n, dest) == st);
        }
        lemma_output_by_lines(ls, m, dest);
        lemma_line_adds(st, m, ls[m as int], dest);
        assert(added_upto(ls, dest, n).drop_last() =~= added_upto(ls, dest, m));
        assert(added_upto(ls, dest, n).last() == added_by(ls, dest, m as int));
    }
}

/// An accepted configuration's bundled text repeats the source line by line, each line
/// adding exactly `line_adds` of it: itself inside inline blocks, for block tags, blank
/// lines, comments and directives that name no file; nothing for a `cd` directive (or a
/// line without words); and for a directive that names a file, the directive with that
/// file replaced by the quoted name of its copy, `<destination>/<line index>-<key>`.
pub proof fn lemma_bundled_config_by_lines(content: Seq<char>, dest: Seq<char>)
    ensures
        plan_of(content, dest).1 matches Ok((config, remote, label)) ==> {
            let ls = lines(content);
            &&& config == concat(added_upto(ls, dest, ls.len()))
            &&& forall|i: int|
                0 <= i < ls.len() ==> #[trigger] added_by(ls, dest, i) == line_adds(plan_upto(ls, i as nat, dest), i as nat, ls[i], dest)
        },
{
    let ls = lines(content);
    if plan_of(content, dest).1 is Ok {
        lemma_output_by_lines(ls, ls.len(), dest);
    }
}

/// Whether line `i` of `ls` is a `proto` directive read outside inline blocks, with no
/// earlier refusal, whose words are `ws` (at least the key and the protocol).
pub open spec fn proto_line(ls: Seq<Seq<char>>, dest: Seq<char>, i: int, ws: Seq<Seq<char>>) -> bool {
    let st = plan_upto(ls, i as nat, dest);
    let t = trim(ls[i]);
    &&& 0 <= i < ls.len()
    &&& st.failure is None
    &&& st.inline is None
    &&& !kept_verbatim(t)
    &&& shell_split(t) == Some(ws)
    &&& ws.len() > 1
    &&& strip_dashes(ws[0]) == "proto"@
}

/// Only a `proto` directive changes the protocol setting: reading any other line, a
/// `remote` line included, leaves it as it was, and a `proto` directive with an argument
/// sets it to that argument.
pub proof fn lemma_protocol_set_only_by_proto(st: PlanView, i: nat, line: Seq<char>, dest: Seq<char>)
    ensures
        plan_line(st, i, line, dest).protocol == if st.failure is None && st.inline is None && !kept_verbatim(
            trim(line),
        ) && (shell_split(trim(line)) matches Some(ws) && ws.len() > 1 && strip_dashes(ws[0]) == "proto"@) {
            shell_split(trim(line))->0[1]
        } else {
            st.protocol
        },
{
    reveal_strlit("proto");
    reveal_strlit("remote");
    reveal_strlit("port");
    reveal_strlit("rport");
    reveal_strlit("cd");
}

/// The protocol setting after the first `n` lines is the argument of the last `proto`
/// directive among them, and UDP when there is none.
pub proof fn lemma_protocol_from_last_proto(ls: Seq<Seq<char>>, n: nat, dest: Seq<char>)
    requires
        n <= ls.len(),
    ensures
        (forall|i: int, ws: Seq<Seq<char>>| 0 <= i < n ==> !#[trigger] proto_line(ls, dest, i, ws)) ==> plan_upto(
            ls,
            n,
            dest,
        ).protocol == "UDP"@,
        forall|i: int, ws: Seq<Seq<char>>|
            #[trigger] proto_line(ls, dest, i, ws) && i < n && (forall|j: int, ws2: Seq<Seq<char>>|
                i < j < n ==> !#[trigger] proto_line(ls, dest, j, ws2)) ==> plan_upto(ls, n, dest).protocol == ws[1],
    decreases n,
{
    if n > 0 {
        let m = (n - 1) as nat;
        lemma_protocol_from_last_proto(ls, m, dest);
        let st = plan_upto(ls, m, dest);
        assert(plan_upto(ls, n, dest) == plan_line(st, m, ls[m as int], dest));
        lemma_protocol_set_only_by_proto(st, m, ls[m as int], dest);
        let t = trim(ls[m as int]);
        if st.failure is None && st.inline is None && !kept_verbatim(t) && (shell_split(t) matches Some(ws) && ws.len()
            > 1 && strip_dashes(ws[0]) == "proto"@) {
            let ws = shell_split(t)->0;
            assert(proto_line(ls, dest, m as int, ws));
        } else {
            assert forall|ws2: Seq<Seq<char>>| !#[trigger] proto_line(ls, dest, m as int, ws2) by {}
        }
    }
}

/// Steps once planned stay planned: the plan after more lines extends the plan after fewer.
proof fn lemma_steps_extend(ls: Seq<Seq<char>>, m: nat, n: nat, dest: Seq<char>)
    requires
        m <= n <= ls.len(),
    ensures
        plan_upto(ls, n, dest).steps.len() >= plan_upto(ls, m, dest).steps.len(),
        forall|k: int|
            0 <= k < plan_upto(ls, m, dest).steps.len() ==> #[trigger] plan_upto(ls, n, dest).steps[k] == plan_upto(
                ls,
                m,
                dest,
            ).steps[k],
    decreases n,
{
    if n > m {
        let p = (n - 1) as nat;
        lemma_steps_extend(ls, m, p, dest);
        lemma_plan_line_step(plan_upto(ls, p, dest), p, ls[p as int], dest);
        let before = plan_upto(ls, p, dest).steps;
        let after = plan_upto(ls, n, dest).steps;
        assert forall|k: int| 0 <= k < plan_upto(ls, m, dest).steps.len() implies #[trigger] after[k] == plan_upto(
            ls,
            m,
            dest,
        ).steps[k] by {
            if after != before {
                assert(after[k] == after.drop_last()[k]);
            }
            assert(before[k] == plan_upto(ls, m, dest).steps[k]);
        }
    }
}

/// A directive that names a file is planned as a copy of that file, beside the bundle:
/// for each of the keys `ca`, `cert`, `key`, `pkcs12`, `tls-auth`, `tls-crypt`,
/// `tls-crypt-v2`, `crl-verify`, `extra-certs`, `auth-user-pass` and `askpass` (with or
/// without leading dashes), on a line outside inline blocks with no earlier refusal, whose
/// first argument is neither `[inline]` nor a comment, the plan copies that argument to
/// `<destination>/<line index>-<key>`, names the source line, and the bundled text holds
/// the directive with its argument replaced by that copy's quoted path.
pub proof fn lemma_file_directive_copied(content: Seq<char>, dest: Seq<char>, i: nat, ws: Seq<Seq<char>>)
    requires
        i < lines(content).len(),
        plan_upto(lines(content), i, dest).failure is None,
        plan_upto(lines(content), i, dest).inline is None,
        !kept_verbatim(trim(lines(content)[i as int])),
        shell_split(trim(lines(content)[i as int])) == Some(ws),
        ws.len() > 1,
        ({
            let k = strip_dashes(ws[0]);
            ||| k == "ca"@
            ||| k == "cert"@
            ||| k == "key"@
            ||| k == "pkcs12"@
            ||| k == "tls-auth"@
            ||| k == "tls-crypt"@
            ||| k == "tls-crypt-v2"@
            ||| k == "crl-verify"@
            ||| k == "extra-certs"@
            ||| k == "auth-user-pass"@
            ||| k == "askpass"@
        }),
        ws[1] != "[inline]"@,
        !starts_with(ws[1], "#"@),
        !starts_with(ws[1], ";"@),
    ensures
        ({
            let ls = lines(content);
            let k = strip_dashes(ws[0]);
            let target = join(dest, decimal(i) + "-"@ + k);
            let at = plan_upto(ls, i, dest).steps.len() as int;
            &&& at < plan_of(content, dest).0.len()
            &&& plan_of(content, dest).0[at] == StepView::Copy { source: ws[1], target, key: k, line: i + 1 }
            &&& added_by(ls, dest, i as int) == spaced(ws.update(1, "\""@ + escaped(target) + "\""@)) + "\n"@
        }),
{
    reveal_strlit("ca");
    reveal_strlit("cert");
    reveal_strlit("key");
    reveal_strlit("pkcs12");
    reveal_strlit("tls-auth");
    reveal_strlit("tls-crypt");
    reveal_strlit("tls-crypt-v2");
    reveal_strlit("crl-verify");
    reveal_strlit("extra-certs");
    reveal_strlit("auth-user-pass");
    reveal_strlit("askpass");
    reveal_strlit("cd");
    reveal_strlit("up");
    reveal_strlit("down");
    reveal_strlit("route-up");
    reveal_strlit("route-pre-down");
    reveal_strlit("ipchange");
    reveal_strlit("tls-verify");
    reveal_strlit("plugin");
    reveal_strlit("config");
    let ls = lines(content);
    let k = strip_dashes(ws[0]);
    let st = plan_upto(ls, i, dest);
    let next = plan_upto(ls, i + 1, dest);
    assert(next == plan_line(st, i, ls[i as int], dest));
    if k == "ca"@ {
        assert("ca"@[1] != "cd"@[1]);
        assert("ca"@[0] != "up"@[0]);
        assert("ca"@.len() != "down"@.len());
        assert("ca"@.len() != "route-up"@.len());
        assert("ca"@.len() != "route-pre-down"@.len());
        assert("ca"@.len() != "ipchange"@.len());
        assert("ca"@.len() != "tls-verify"@.len());
        assert("ca"@.len() != "plugin"@.len());
        assert("ca"@.len() != "config"@.len());
    }
    if k == "cert"@ {
        assert("cert"@.len() != "cd"@.len());
        assert("cert"@.len() != "up"@.len());
        assert("cert"@[0] != "down"@[0]);
        assert("cert"@.len() != "route-up"@.len());
        assert("cert"@.len() != "route-pre-down"@.len());
        assert("cert"@.len() != "ipchange"@.len());
        assert("cert"@.len() != "tls-verify"@.len());
        assert("cert"@.len() != "plugin"@.len());
        assert("cert"@.len() != "config"@.len());
    }
    if k == "key"@ {
        assert("key"@.len() != "cd"@.len());
        assert("key"@.len() != "up"@.len());
        assert("key"@.len() != "down"@.len());
        assert("key"@.len() != "route-up"@.len());
        assert("key"@.len() != "route-pre-down"@.len());
        assert("key"@.len() != "ipchange"@.len());
        assert("key"@.len() != "tls-verify"@.len());
        assert("key"@.len() != "plugin"@.len());
        assert("key"@.len() != "config"@.len());
    }
    if k == "pkcs12"@ {
        assert("pkcs12"@.len() != "cd"@.len());
        assert("pkcs12"@.len() != "up"@.len());
        assert("pkcs12"@.len() != "down"@.len());
        assert("pkcs12"@.len() != "route-up"@.len());
        assert("pkcs12"@.len() != "route-pre-down"@.len());
        assert("pkcs12"@.len() != "ipchange"@.len());
        assert("pkcs12"@.len() != "tls-verify"@.len());
        assert("pkcs12"@[1] != "plugin"@[1]);
        assert("pkcs12"@[0] != "config"@[0]);
    }
    if k == "tls-auth"@ {
        assert("tls-auth"@.len() != "cd"@.len());
        assert("tls-auth"@.len() != "up"@.len());
        assert("tls-auth"@.len() != "down"@.len());
        assert("tls-auth"@[0] != "route-up"@[0]);
        assert("tls-auth"@.len() != "route-pre-down"@.len());
        assert("tls-auth"@[0] != "ipchange"@[0]);
        assert("tls-auth"@.len() != "tls-verify"@.len());
        assert("tls-auth"@.len() != "plugin"@.len());
        assert("tls-auth"@.len() != "config"@.len());
    }
    if k == "tls-crypt"@ {
        assert("tls-crypt"@.len() != "cd"@.len());
        assert("tls-crypt"@.len() != "up"@.len());
        assert("tls-crypt"@.len() != "down"@.len());
        assert("tls-crypt"@.len() != "route-up"@.len());
        assert("tls-crypt"@.len() != "route-pre-down"@.len());
        assert("tls-crypt"@.len() != "ipchange"@.len());
        assert("tls-crypt"@.len() != "tls-verify"@.len());
        assert("tls-crypt"@.len() != "plugin"@.len());
        assert("tls-crypt"@.len() != "config"@.len());
    }
    if k == "tls-crypt-v2"@ {
        assert("tls-crypt-v2"@.len() != "cd"@.len());
        assert("tls-crypt-v2"@.len() != "up"@.len());
        assert("tls-crypt-v2"@.len() != "down"@.len());
        assert("tls-crypt-v2"@.len() != "route-up"@.len());
        assert("tls-crypt-v2"@.len() != "route-pre-down"@.len());
        assert("tls-crypt-v2"@.len() != "ipchange"@.len());
        assert("tls-crypt-v2"@.len() != "tls-verify"@.len());
        assert("tls-crypt-v2"@.len() != "plugin"@.len());
        assert("tls-crypt-v2"@.len() != "config"@.len());
    }
    if k == "crl-verify"@ {
        assert("crl-verify"@.len() != "cd"@.len());
        assert("crl-verify"@.len() != "up"@.len());
        assert("crl-verify"@.len() != "down"@.len());
        assert("crl-verify"@.len() != "route-up"@.len());
        assert("crl-verify"@.len() != "route-pre-down"@.len());
        assert("crl-verify"@.len() != "ipchange"@.len());
        assert("crl-verify"@[0] != "tls-verify"@[0]);
        assert("crl-verify"@.len() != "plugin"@.len());
        assert("crl-verify"@.len() != "config"@.len());
    }
    if k == "extra-certs"@ {
        assert("extra-certs"@.len() != "cd"@.len());
        assert("extra-certs"@.len() != "up"@.len());
        assert("extra-certs"@.len() != "down"@.len());
        assert("extra-certs"@.len() != "route-up"@.len());
        assert("extra-certs"@.len() != "route-pre-down"@.len());
        assert("extra-certs"@.len() != "ipchange"@.len());
        assert("extra-certs"@.len() != "tls-verify"@.len());
        assert("extra-certs"@.len() != "plugin"@.len());
        assert("extra-certs"@.len() != "config"@.len());
    }
    if k == "auth-user-pass"@ {
        assert("auth-user-pass"@.len() != "cd"@.len());
        assert("auth-user-pass"@.len() != "up"@.len());
        assert("auth-user-pass"@.len() != "down"@.len());
        assert("auth-user-pass"@.len() != "route-up"@.len());
        assert("auth-user-pass"@[0] != "route-pre-down"@[0]);
        assert("auth-user-pass"@.len() != "ipchange"@.len());
        assert("auth-user-pass"@.len() != "tls-verify"@.len());
        assert("auth-user-pass"@.len() != "plugin"@.len());
        assert("auth-user-pass"@.len() != "config"@.len());
    }
    if k == "askpass"@ {
        assert("askpass"@.len() != "cd"@.len());
        assert("askpass"@.len() != "up"@.len());
        assert("askpass"@.len() != "down"@.len());
        assert("askpass"@.len() != "route-up"@.len());
        assert("askpass"@.len() != "route-pre-down"@.len());
        assert("askpass"@.len() != "ipchange"@.len());
        assert("askpass"@.len() != "tls-verify"@.len());
        assert("askpass"@.len() != "plugin"@.len());
        assert("askpass"@.len() != "config"@.len());
    }
    assert(k != "cd"@);
    assert(!is_refused_key(k));
    assert(is_file_key(k));
    assert(copies_file(ws, k));
    let target = join(dest, decimal(i) + "-"@ + k);
    assert(next.steps == st.steps.push(StepView::Copy { source: ws[1], target, key: k, line: i + 1 }));
    lemma_steps_extend(ls, i + 1, ls.len(), dest);
    assert(plan_upto(ls, ls.len(), dest).steps[st.steps.len() as int] == next.steps[st.steps.len() as int]);
    lemma_line_adds(st, i, ls[i as int], dest);
}

} // verus!
