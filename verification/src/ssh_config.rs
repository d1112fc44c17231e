use vstd::prelude::*;

use crate::machine::opt_chars;
use crate::ssh::{parse_u16, parse_u16_spec};
use crate::text::{
    chars_of, is_unicode_whitespace, is_whitespace, lemma_drop_while_skip, non_empty, string_from,
    take_while, trim, trim_range,
};
use crate::url::{join_path, UrlBuf};

verus! {

/// What the output of `ssh -G` says of a connection.
#[derive(Debug)]
pub struct SshConfig {
    pub host: Option<String>,
    pub user: Option<String>,
    pub port: Option<u16>,
    pub key_files: Vec<String>,
    pub cert_files: Vec<String>,
    pub identity_agent: Option<String>,
}

/// What an [`SshConfig`] holds.
pub struct SshConfigView {
    pub host: Option<Seq<char>>,
    pub user: Option<Seq<char>>,
    pub port: Option<u16>,
    pub key_files: Seq<Seq<char>>,
    pub cert_files: Seq<Seq<char>>,
    pub identity_agent: Option<Seq<char>>,
}

/// The characters of each string of `s`.
pub open spec fn strings_view(s: Seq<String>) -> Seq<Seq<char>> {
    s.map_values(|x: String| x@)
}

impl View for SshConfig {
    type V = SshConfigView;

    open spec fn view(&self) -> SshConfigView {
        SshConfigView {
            host: opt_chars(self.host),
            user: opt_chars(self.user),
            port: self.port,
            key_files: strings_view(self.key_files@),
            cert_files: strings_view(self.cert_files@),
            identity_agent: opt_chars(self.identity_agent),
        }
    }
}

/// A configuration that says nothing.
pub open spec fn empty_config() -> SshConfigView {
    SshConfigView {
        host: None,
        user: None,
        port: None,
        key_files: Seq::empty(),
        cert_files: Seq::empty(),
        identity_agent: None,
    }
}

impl SshConfig {
    /// A configuration that says nothing.
    pub fn new() -> (c: SshConfig)
        ensures
            c@ == empty_config(),
    {
        let c = SshConfig {
            host: None,
            user: None,
            port: None,
            key_files: Vec::new(),
            cert_files: Vec::new(),
            identity_agent: None,
        };
        assert(c@.key_files =~= Seq::<Seq<char>>::empty());
        assert(c@.cert_files =~= Seq::<Seq<char>>::empty());
        c
    }
}

/// A line without the carriage return that ends it.
pub open spec fn strip_cr(l: Seq<char>) -> Seq<char> {
    if l.len() > 0 && l.last() == '\r' {
        l.drop_last()
    } else {
        l
    }
}

/// The lines of `s` that follow a line begun with `cur`, split as
/// `str::lines` splits them: at `\n`, a `\r` before the `\n` dropped, and
/// no empty line after a final `\n`.
pub open spec fn lines_from(s: Seq<char>, cur: Seq<char>) -> Seq<Seq<char>>
    decreases s.len(),
{
    if s.len() == 0 {
        if cur.len() == 0 {
            Seq::empty()
        } else {
            seq![cur]
        }
    } else if s[0] == '\n' {
        seq![strip_cr(cur)] + lines_from(s.drop_first(), Seq::empty())
    } else {
        lines_from(s.drop_first(), cur.push(s[0]))
    }
}

/// The lines of `s`.
pub open spec fn lines(s: Seq<char>) -> Seq<Seq<char>> {
    lines_from(s, Seq::empty())
}

/// The code of `c` with ASCII capitals made small.
pub open spec fn lower_code(c: char) -> int {
    if 65 <= (c as u32) <= 90 {
        (c as u32) + 32
    } else {
        c as u32 as int
    }
}

/// `a` and `b` are the same but for the case of ASCII letters.
pub open spec fn eq_ignore_ascii_case(a: Seq<char>, b: Seq<char>) -> bool {
    a.len() == b.len() && forall|i: int| 0 <= i < a.len() ==> lower_code(#[trigger] a[i]) == lower_code(b[i])
}

/// `s` trimmed, where something is left of it.
pub open spec fn nonempty_trimmed(s: Seq<char>) -> Option<Seq<char>> {
    if trim(s).len() > 0 {
        Some(trim(s))
    } else {
        None
    }
}

/// `v` with a leading `~` standing for the home directory `home`.
pub open spec fn expand_home(v: Seq<char>, home: Seq<char>) -> Seq<char> {
    if v == seq!['~'] {
        home
    } else if v.len() >= 2 && v[0] == '~' && v[1] == '/' {
        join_path(home, v.skip(2))
    } else {
        v
    }
}

/// The path that a value of `ssh -G` names: none where the value is empty or
/// `none`, nor where it is not absolute once `~` is expanded.
pub open spec fn config_path_spec(value: Seq<char>, home: Seq<char>) -> Option<Seq<char>> {
    let v = trim(value);
    if v.len() == 0 || eq_ignore_ascii_case(v, "none"@) {
        None
    } else {
        let e = expand_home(v, home);
        if e.len() > 0 && e[0] == '/' {
            Some(e)
        } else {
            None
        }
    }
}

/// The key of a line of `ssh -G` output: what precedes its first whitespace.
pub open spec fn line_key(line: Seq<char>) -> Seq<char> {
    take_while(line, |c: char| !is_unicode_whitespace(c))
}

/// The value of a line of `ssh -G` output: what follows its first
/// whitespace, trimmed.
pub open spec fn line_value(line: Seq<char>) -> Seq<char> {
    trim(line.skip(line_key(line).len() as int + 1))
}

/// The key of a line is no longer than the line.
pub proof fn lemma_line_key_len(line: Seq<char>)
    ensures
        line_key(line).len() <= line.len(),
{
    crate::text::lemma_take_while_len(line, |c: char| !is_unicode_whitespace(c));
}

/// Whether a line of `ssh -G` output sets the key `word`: it holds
/// whitespace, and what precedes it is `word` but for the case of ASCII letters.
pub open spec fn is_setting_line(line: Seq<char>, word: Seq<char>) -> bool {
    line_key(line).len() < line.len() && eq_ignore_ascii_case(line_key(line), word)
}

/// What one line `key value` of `ssh -G` adds to `cfg`; a line without
/// whitespace, or with a key not listed here, adds nothing.
pub open spec fn apply_line(cfg: SshConfigView, line: Seq<char>, home: Seq<char>) -> SshConfigView {
    let key = line_key(line);
    if key.len() == line.len() {
        cfg
    } else {
        let value = line_value(line);
        if eq_ignore_ascii_case(key, "hostname"@) {
            SshConfigView { host: nonempty_trimmed(value), ..cfg }
        } else if eq_ignore_ascii_case(key, "user"@) {
            SshConfigView { user: nonempty_trimmed(value), ..cfg }
        } else if eq_ignore_ascii_case(key, "port"@) {
            SshConfigView { port: parse_u16_spec(value), ..cfg }
        } else if eq_ignore_ascii_case(key, "identityfile"@) {
            match config_path_spec(value, home) {
                Some(p) => SshConfigView { key_files: cfg.key_files.push(p), ..cfg },
                None => cfg,
            }
        } else if eq_ignore_ascii_case(key, "certificatefile"@) {
            match config_path_spec(value, home) {
                Some(p) => SshConfigView { cert_files: cfg.cert_files.push(p), ..cfg },
                None => cfg,
            }
        } else if eq_ignore_ascii_case(key, "identityagent"@) {
            SshConfigView { identity_agent: config_path_spec(value, home), ..cfg }
        } else {
            cfg
        }
    }
}

/// One line's step of reading `ssh -G` output, for the home directory `home`.
pub open spec fn line_step(home: Seq<char>) -> spec_fn(SshConfigView, Seq<char>) -> SshConfigView {
    |cfg: SshConfigView, line: Seq<char>| apply_line(cfg, line, home)
}

/// What the output `raw` of `ssh -G` says, line after line.
pub open spec fn parse_ssh_config_spec(raw: Seq<char>, home: Seq<char>) -> SshConfigView {
    lines(raw).fold_left(empty_config(), line_step(home))
}

/// Whether `v[lo..hi]` is `word` but for the case of ASCII letters.
fn eq_ignore_case_range(v: &Vec<char>, lo: usize, hi: usize, word: &str) -> (r: bool)
    requires
        lo <= hi <= v.len(),
    ensures
        r == eq_ignore_ascii_case(v@.subrange(lo as int, hi as int), word@),
{
    let w = chars_of(word);
    if hi - lo != w.len() {
        return false;
    }
    let ghost a = v@.subrange(lo as int, hi as int);
    let mut i: usize = 0;
    while i < w.len()
        invariant
            hi - lo == w.len(),
            lo <= hi <= v.len(),
            i <= w.len(),
            w@ == word@,
            a == v@.subrange(lo as int, hi as int),
            forall|k: int| 0 <= k < i ==> lower_code(#[trigger] a[k]) == lower_code(w@[k]),
        decreases w.len() - i,
    {
        let x = v[lo + i] as u32;
        let y = w[i] as u32;
        let lx = if 65 <= x && x <= 90 {
            x + 32
        } else {
            x
        };
        let ly = if 65 <= y && y <= 90 {
            y + 32
        } else {
            y
        };
        assert(a[i as int] == v@[lo + i]);
        if lx != ly {
            return false;
        }
        i = i + 1;
    }
    true
}

/// The path that the value `value` of `ssh -G` names, `~` standing for `home`.
pub fn ssh_config_path(value: &str, home: &str) -> (r: Option<String>)
    ensures
        opt_chars(r) == config_path_spec(value@, home@),
{
    let v = chars_of(value);
    assert(v@.subrange(0, v.len() as int) == v@);
    let (lo, hi) = trim_range(&v, 0, v.len());
    if lo == hi || eq_ignore_case_range(&v, lo, hi, "none") {
        return None;
    }
    let t = string_from(&v, lo, hi);
    let expanded = if hi - lo == 1 && v[lo] == '~' {
        assert(t@ =~= seq!['~']);
        String::from_str(home)
    } else if hi - lo >= 2 && v[lo] == '~' && v[lo + 1] == '/' {
        let rest = string_from(&v, lo + 2, hi);
        assert(rest@ == t@.skip(2));
        let base = UrlBuf::from_path(String::from_str(home));
        base.join(rest.as_str()).path
    } else {
        proof {
            if t@ == seq!['~'] {
                assert(t@[0] == v@[lo as int]);
            }
        }
        t
    };
    assert(expanded@ == expand_home(t@, home@));
    let e = chars_of(expanded.as_str());
    if e.len() > 0 && e[0] == '/' {
        Some(expanded)
    } else {
        None
    }
}

/// Adds to `cfg` what the line `v[lo..hi]` of `ssh -G` output says.
fn apply_line_exec(cfg: &mut SshConfig, v: &Vec<char>, lo: usize, hi: usize, home: &str)
    requires
        lo <= hi <= v.len(),
    ensures
        final(cfg)@ == apply_line(old(cfg)@, v@.subrange(lo as int, hi as int), home@),
{
    let ghost line = v@.subrange(lo as int, hi as int);
    let mut k: usize = lo;
    while k < hi && !is_whitespace(v[k])
        invariant
            lo <= k <= hi <= v.len(),
            forall|j: int| lo <= j < k ==> !is_unicode_whitespace(#[trigger] v@[j]),
        decreases hi - k,
    {
        k = k + 1;
    }
    proof {
        assert forall|j: int| 0 <= j < k - lo implies (|c: char| !is_unicode_whitespace(c))(
            #[trigger] line[j],
        ) by {
            assert(line[j] == v@[lo + j]);
        }
        if k < hi {
            assert(line[k - lo] == v@[k as int]);
        }
        lemma_drop_while_skip(line, |c: char| !is_unicode_whitespace(c), k - lo);
    }
    if k == hi {
        return;
    }
    let (a, b) = trim_range(v, k + 1, hi);
    proof {
        assert(line.skip(k - lo + 1) == v@.subrange(k + 1, hi as int));
        assert(line.take(k - lo) == v@.subrange(lo as int, k as int));
    }
    let ghost old_cfg = cfg@;
    let value = string_from(v, a, b);
    if eq_ignore_case_range(v, lo, k, "hostname") {
        cfg.host = non_empty(value);
    } else if eq_ignore_case_range(v, lo, k, "user") {
        cfg.user = non_empty(value);
    } else if eq_ignore_case_range(v, lo, k, "port") {
        cfg.port = parse_u16(v, a, b);
    } else if eq_ignore_case_range(v, lo, k, "identityfile") {
        if let Some(path) = ssh_config_path(value.as_str(), home) {
            let ghost before = cfg.key_files@;
            cfg.key_files.push(path);
            assert(strings_view(cfg.key_files@) =~= strings_view(before).push(path@));
        }
    } else if eq_ignore_case_range(v, lo, k, "certificatefile") {
        if let Some(path) = ssh_config_path(value.as_str(), home) {
            let ghost before = cfg.cert_files@;
            cfg.cert_files.push(path);
            assert(strings_view(cfg.cert_files@) =~= strings_view(before).push(path@));
        }
    } else if eq_ignore_case_range(v, lo, k, "identityagent") {
        cfg.identity_agent = ssh_config_path(value.as_str(), home);
    }
}

/// What the output `raw` of `ssh -G` says of a connection, `~` in its paths
/// standing for the home directory `home`.
pub fn parse_ssh_config_output(raw: &str, home: &str) -> (c: SshConfig)
    ensures
        c@ == parse_ssh_config_spec(raw@, home@),
{
    let v = chars_of(raw);
    let mut cfg = SshConfig::new();
    let mut st: usize = 0;
    let mut i: usize = 0;
    let ghost mut done: Seq<Seq<char>> = Seq::empty();
    assert(v@.skip(0) == v@);
    assert(v@.subrange(0, 0) == Seq::<char>::empty());
    while i < v.len()
        invariant
            st <= i <= v.len(),
            lines(v@) == done + lines_from(v@.skip(i as int), v@.subrange(st as int, i as int)),
            cfg@ == done.fold_left(empty_config(), line_step(home@)),
        decreases v.len() - i,
    {
        let ghost rest = v@.skip(i as int);
        let ghost cur = v@.subrange(st as int, i as int);
        assert(rest[0] == v@[i as int]);
        assert(rest.drop_first() == v@.skip(i + 1));
        if v[i] == '\n' {
            let end = if i > st && v[i - 1] == '\r' {
                i - 1
            } else {
                i
            };
            proof {
                if i > st && v@[i - 1] == '\r' {
                    assert(cur.last() == v@[i - 1]);
                    assert(cur.drop_last() == v@.subrange(st as int, end as int));
                } else if i > st {
                    assert(cur.last() == v@[i - 1]);
                }
                assert(strip_cr(cur) == v@.subrange(st as int, end as int));
            }
            apply_line_exec(&mut cfg, &v, st, end, home);
            proof {
                let x = strip_cr(cur);
                let old_done = done;
                done = done.push(x);
                assert(done.drop_last() == old_done);
                assert(lines_from(rest, cur) == seq![x] + lines_from(v@.skip(i + 1), Seq::empty()));
                assert(v@.subrange(i + 1, i + 1) == Seq::<char>::empty());
                assert(old_done + (seq![x] + lines_from(v@.skip(i + 1), Seq::empty())) == done
                    + lines_from(v@.skip(i + 1), Seq::empty()));
            }
            st = i + 1;
        } else {
            proof {
                assert(cur.push(v@[i as int]) == v@.subrange(st as int, i + 1));
            }
        }
        i = i + 1;
    }
    proof {
        assert(v@.skip(v.len() as int) == Seq::<char>::empty());
    }
    if st < v.len() {
        let ghost cur = v@.subrange(st as int, v.len() as int);
        apply_line_exec(&mut cfg, &v, st, v.len(), home);
        proof {
            let old_done = done;
            done = done.push(cur);
            assert(done.drop_last() == old_done);
            assert(old_done + seq![cur] == done);
        }
    } else {
        assert(done + Seq::<Seq<char>>::empty() == done);
    }
    cfg
}

/// The settings an SFTP connection is opened with.
#[derive(Debug)]
pub struct SftpConfig {
    pub host: String,
    pub user: String,
    pub port: u16,
    pub key_file: String,
    pub cert_file: String,
    pub identity_agent: String,
}

impl SftpConfig {
    /// The settings for `user` at `host`, port `port`, with no key file,
    /// certificate file or identity agent.
    pub fn new(host: String, user: String, port: u16) -> (c: SftpConfig)
        ensures
            c.host@ == host@,
            c.user@ == user@,
            c.port == port,
            c.key_file@.len() == 0,
            c.cert_file@.len() == 0,
            c.identity_agent@.len() == 0,
    {
        SftpConfig {
            host,
            user,
            port,
            key_file: String::new(),
            cert_file: String::new(),
            identity_agent: String::new(),
        }
    }
}

/// The first of `paths` whose flag is set.
pub open spec fn first_flagged(paths: Seq<Seq<char>>, flags: Seq<bool>) -> Option<Seq<char>>
    decreases paths.len(),
{
    if paths.len() == 0 || flags.len() == 0 {
        None
    } else if flags[0] {
        Some(paths[0])
    } else {
        first_flagged(paths.drop_first(), flags.drop_first())
    }
}

/// Past unflagged paths, the first flagged one is the first flagged of the rest.
pub proof fn lemma_first_flagged_skip(paths: Seq<Seq<char>>, flags: Seq<bool>, i: int)
    requires
        0 <= i <= paths.len(),
        paths.len() == flags.len(),
        forall|j: int| 0 <= j < i ==> !#[trigger] flags[j],
    ensures
        first_flagged(paths, flags) == first_flagged(paths.skip(i), flags.skip(i)),
    decreases i,
{
    if i == 0 {
        assert(paths.skip(0) == paths);
        assert(flags.skip(0) == flags);
    } else {
        let p = paths.drop_first();
        let f = flags.drop_first();
        assert forall|j: int| 0 <= j < i - 1 implies !#[trigger] f[j] by {
            assert(f[j] == flags[j + 1]);
        }
        assert(!flags[0]);
        lemma_first_flagged_skip(p, f, i - 1);
        assert(p.skip(i - 1) == paths.skip(i));
        assert(f.skip(i - 1) == flags.skip(i));
    }
}

/// The first of `paths` whose flag is set.
fn find_flagged(paths: &Vec<String>, flags: &Vec<bool>) -> (r: Option<String>)
    requires
        paths.len() == flags.len(),
    ensures
        opt_chars(r) == first_flagged(strings_view(paths@), flags@),
{
    let ghost p = strings_view(paths@);
    let mut i: usize = 0;
    while i < paths.len()
        invariant
            i <= paths.len() == flags.len(),
            p == strings_view(paths@),
            forall|j: int| 0 <= j < i ==> !#[trigger] flags@[j],
        decreases paths.len() - i,
    {
        if flags[i] {
            proof {
                lemma_first_flagged_skip(p, flags@, i as int);
                assert(p.skip(i as int)[0] == paths@[i as int]@);
                assert(flags@.skip(i as int)[0] == flags@[i as int]);
            }
            return Some(paths[i].clone());
        }
        i = i + 1;
    }
    proof {
        lemma_first_flagged_skip(p, flags@, i as int);
    }
    None
}

/// `current` where `found` is none, else what was found.
pub open spec fn or_keep(found: Option<Seq<char>>, current: Seq<char>) -> Seq<char> {
    match found {
        Some(x) => x,
        None => current,
    }
}

/// `config` with what `ssh -G` said in `parsed` put in: a host or user that
/// holds more than whitespace (trimmed), a port, the first key file and the
/// first certificate file that are files (`key_is_file` and `cert_is_file`
/// tell which), and an identity agent that exists (`agent_exists`).
pub fn apply_ssh_config(
    config: SftpConfig,
    parsed: SshConfig,
    key_is_file: &Vec<bool>,
    cert_is_file: &Vec<bool>,
    agent_exists: bool,
) -> (r: SftpConfig)
    requires
        key_is_file.len() == parsed.key_files.len(),
        cert_is_file.len() == parsed.cert_files.len(),
    ensures
        r.host@ == or_keep(
            match parsed@.host {
                Some(h) => nonempty_trimmed(h),
                None => None,
            },
            config.host@,
        ),
        r.user@ == or_keep(
            match parsed@.user {
                Some(u) => nonempty_trimmed(u),
                None => None,
            },
            config.user@,
        ),
        r.port == (match parsed.port {
            Some(p) => p,
            None => config.port,
        }),
        r.key_file@ == or_keep(first_flagged(parsed@.key_files, key_is_file@), config.key_file@),
        r.cert_file@ == or_keep(first_flagged(parsed@.cert_files, cert_is_file@), config.cert_file@),
        r.identity_agent@ == or_keep(
            if agent_exists {
                parsed@.identity_agent
            } else {
                None
            },
            config.identity_agent@,
        ),
{
    let mut config = config;
    if let Some(host) = parsed.host {
        if let Some(host) = non_empty(host) {
            config.host = host;
        }
    }
    if let Some(user) = parsed.user {
        if let Some(user) = non_empty(user) {
            config.user = user;
        }
    }
    if let Some(port) = parsed.port {
        config.port = port;
    }
    if let Some(key_file) = find_flagged(&parsed.key_files, key_is_file) {
        config.key_file = key_file;
    }
    if let Some(cert_file) = find_flagged(&parsed.cert_files, cert_is_file) {
        config.cert_file = cert_file;
    }
    if agent_exists {
        if let Some(agent) = parsed.identity_agent {
            config.identity_agent = agent;
        }
    }
    config
}

/// Seconds that a connection to the SFTP service of a fleet machine may
/// take: shorter than for the services a user configures by hand.
pub const SFTP_CONNECT_TIMEOUT_SECS: u64 = 8;

/// The key file, certificate file and identity agent that an SFTP service
/// uses where `ssh -G` names none.
#[derive(Debug)]
pub struct SftpDefaults {
    pub key_file: String,
    pub cert_file: String,
    pub identity_agent: String,
}

/// The SFTP service of a fleet machine: where it connects, as whom, with
/// which credentials, and how long a connection may take.
#[derive(Debug)]
pub struct SftpService {
    pub host: String,
    pub user: String,
    pub port: u16,
    pub connect_timeout_secs: u64,
    pub key_file: String,
    pub cert_file: String,
    pub identity_agent: String,
}

/// `resolved` where it is not empty, else `default`.
pub open spec fn unless_empty(resolved: Seq<char>, default: Seq<char>) -> Seq<char> {
    if resolved.len() > 0 {
        resolved
    } else {
        default
    }
}

/// The SFTP service of a fleet machine from its resolved settings: the
/// host, user and port resolved, the fleet's short connection timeout, and
/// each of key file, certificate file and identity agent as resolved where
/// that is not empty, else as in `defaults`.
pub fn sftp_service_config(resolved: SftpConfig, defaults: SftpDefaults) -> (s: SftpService)
    ensures
        s.host@ == resolved.host@,
        s.user@ == resolved.user@,
        s.port == resolved.port,
        s.connect_timeout_secs == SFTP_CONNECT_TIMEOUT_SECS,
        s.key_file@ == unless_empty(resolved.key_file@, defaults.key_file@),
        s.cert_file@ == unless_empty(resolved.cert_file@, defaults.cert_file@),
        s.identity_agent@ == unless_empty(resolved.identity_agent@, defaults.identity_agent@),
{
    let mut service = SftpService {
        host: resolved.host,
        user: resolved.user,
        port: resolved.port,
        connect_timeout_secs: SFTP_CONNECT_TIMEOUT_SECS,
        key_file: defaults.key_file,
        cert_file: defaults.cert_file,
        identity_agent: defaults.identity_agent,
    };
    if !resolved.key_file.as_str().is_empty() {
        service.key_file = resolved.key_file;
    }
    if !resolved.cert_file.as_str().is_empty() {
        service.cert_file = resolved.cert_file;
    }
    if !resolved.identity_agent.as_str().is_empty() {
        service.identity_agent = resolved.identity_agent;
    }
    service
}

} // verus!
