use vstd::prelude::*;

use crate::cache::{cache_map, entry_url_spec, lemma_cache_map_last, target_spec, workspace_or_root};
use crate::error::ErrorKind;
use crate::order::{chars_le, lemma_lt_irreflexive, lemma_lt_transitive, sorted_by_id, with_id};
use crate::actors::{enter_directory_spec, opens_machine_root, BootstrapInput};
use crate::ssh_config::{
    first_flagged, lemma_first_flagged_skip, or_keep,
    apply_line, config_path_spec, empty_config, eq_ignore_ascii_case, is_setting_line, line_key,
    lemma_line_key_len, line_step, line_value, lines, lower_code, nonempty_trimmed, parse_ssh_config_spec,
    SshConfigView,
};
use crate::ssh::{parse_u16_spec, all_digits, digits_value, is_digit, other_than, ssh_target_spec, DEFAULT_SSH_PORT};
use crate::topology::{fallback_spec, machine_of, TopologyMachine};
use crate::machine::{
    clean_char, clean_chars, clean_component_spec, entry_label, entry_name_spec, entry_parts,
    entry_title, is_unsafe_path_char,
    MachineView,
};
use crate::text::{
    is_control_char, is_unicode_whitespace, lemma_drop_end_while_take,
    lemma_drop_while_skip, lemma_trim_piece, lemma_trim_unchanged, trim,
};
use crate::url::{
    entry_component, entry_slug_spec, first_word, is_ascii_ws, join_path, root_path, SchemeView,
    UrlView,
};

verus! {

/// A character that may stand in a path component as it is.
pub open spec fn is_clean_char(c: char) -> bool {
    !is_unsafe_path_char(c) && !is_control_char(c)
}

/// A machine id that its entry shows as it is: not empty, and free of
/// whitespace and of characters a path component cannot hold.
pub open spec fn is_plain_id(id: Seq<char>) -> bool {
    id.len() > 0 && forall|i: int|
        0 <= i < id.len() ==> is_clean_char(#[trigger] id[i]) && !is_unicode_whitespace(id[i])
}

/// Every character of a cleaned sequence is clean.
proof fn lemma_cleaned_chars(s: Seq<char>)
    ensures
        forall|i: int|
            0 <= i < s.len() ==> is_clean_char(#[trigger] clean_chars(s)[i]),
{
}

/// A cleaned component is never empty, holds no character that a path
/// component cannot hold, and neither starts nor ends with whitespace.
pub proof fn law_clean_component_is_safe(s: Seq<char>)
    ensures
        clean_component_spec(s).len() > 0,
        forall|i: int|
            0 <= i < clean_component_spec(s).len() ==> is_clean_char(
                #[trigger] clean_component_spec(s)[i],
            ),
        !is_unicode_whitespace(clean_component_spec(s)[0]),
        !is_unicode_whitespace(clean_component_spec(s).last()),
{
    let m = clean_chars(s);
    lemma_cleaned_chars(s);
    lemma_trim_piece(m);
    let t = trim(m);
    reveal_strlit("unnamed");
    if t.len() > 0 {
        let k = choose|k: int|
            0 <= k && k + t.len() <= m.len() && #[trigger] m.subrange(k, k + t.len()) == t;
        assert forall|i: int| 0 <= i < t.len() implies is_clean_char(#[trigger] t[i]) by {
            assert(t[i] == m.subrange(k, k + t.len())[i]);
            assert(t[i] == m[k + i]);
        }
    }
}

/// Cleaning a cleaned component leaves it as it is.
pub proof fn law_clean_component_idempotent(s: Seq<char>)
    ensures
        clean_component_spec(clean_component_spec(s)) == clean_component_spec(s),
{
    let r = clean_component_spec(s);
    law_clean_component_is_safe(s);
    assert(clean_chars(r) =~= r);
    lemma_trim_unchanged(r);
}

/// The URL of a machine's entry in the machines directory names that
/// machine again: the slug read back from it is the machine's id, where the
/// id is plain.
pub proof fn law_entry_slug_is_machine_id(m: MachineView)
    requires
        is_plain_id(m.machine_id),
    ensures
        entry_slug_spec(entry_url_spec(m)) == Some(m.machine_id),
{
    let id = m.machine_id;
    let n = id.len() as int;
    let label = entry_label(m);
    // The label is the id, a space, and a bracketed list that ends it.
    assert(label.take(n) =~= id);
    assert(label[n] == ' ');
    assert(label.last() == ']');
    let name = clean_chars(label);
    assert forall|i: int| 0 <= i < n implies #[trigger] name[i] == id[i] by {
        assert(label[i] == label.take(n)[i]);
    }
    assert(name[n] == ' ');
    assert(name.last() == ']');
    assert forall|i: int| 0 <= i < name.len() implies #[trigger] name[i] != '/' by {
        assert(name[i] == clean_char(label[i]));
    }
    lemma_trim_unchanged(name);
    assert(clean_component_spec(label) == name);
    assert(entry_name_spec(m) == name);
    reveal_strlit("/__open_yasa_machines__");
    reveal_strlit(".");
    reveal_strlit("..");
    let root = root_path();
    let r = root.len() as int;
    let path = join_path(root, name);
    assert(path == root + seq!['/'] + name);
    let slash = |c: char| c == '/';
    let not_slash = |c: char| c != '/';
    // No separator ends the path.
    assert(path[path.len() - 1] == name.last());
    lemma_drop_end_while_take(path, slash, path.len() as int);
    assert(path.take(path.len() as int) == path);
    // The last separator is the one before the name.
    assert forall|k: int| r + 1 <= k < path.len() implies not_slash(#[trigger] path[k]) by {
        assert(path[k] == name[k - r - 1]);
    }
    assert(path[r] == '/');
    lemma_drop_end_while_take(path, not_slash, r + 1);
    let q = path.take(r + 1);
    assert(path.skip(r + 1) =~= name);
    // The parent is the machines directory.
    assert(q[r] == '/');
    assert(q[r - 1] == '_');
    lemma_drop_end_while_take(q, slash, r);
    assert(q.take(r) =~= root);
    assert(name.len() > 2);
    assert(entry_component(entry_url_spec(m)) == Some(name));
    // The first word of the name is the id.
    let ws = |c: char| is_ascii_ws(c);
    let not_ws = |c: char| !is_ascii_ws(c);
    assert(!is_ascii_ws(name[0])) by {
        assert(name[0] == id[0]);
    }
    lemma_drop_while_skip(name, ws, 0);
    assert(name.skip(0) == name);
    assert forall|k: int| 0 <= k < n implies not_ws(#[trigger] name[k]) by {
        assert(name[k] == id[k]);
    }
    lemma_drop_while_skip(name, not_ws, n);
    assert(name.take(n) =~= id);
    assert(first_word(name) == id);
}

/// A local machine of the topology is entered at the working directory
/// through the local filesystem, where that directory is known.
pub proof fn law_local_machine_enters_cwd(t: TopologyMachine, local_id: Seq<char>, cwd: Seq<char>)
    requires
        machine_of(t, local_id, Some(cwd)).local,
        trim(cwd).len() > 0,
    ensures
        target_spec(machine_of(t, local_id, Some(cwd))) == Ok::<UrlView, (ErrorKind, Seq<char>)>(
            UrlView { scheme: SchemeView::Regular, path: cwd },
        ),
{
}

/// A remote machine is entered at its workspace on the SFTP service named
/// after its id, where that workspace is absolute; else entering it fails.
pub proof fn law_remote_machine_enters_sftp(m: MachineView)
    requires
        !m.local,
    ensures
        workspace_or_root(m)[0] == '/' ==> target_spec(m) == Ok::<UrlView, (ErrorKind, Seq<char>)>(
            UrlView { scheme: SchemeView::Sftp(m.machine_id), path: workspace_or_root(m) },
        ),
        workspace_or_root(m)[0] != '/' ==> target_spec(m) is Err,
{
}

/// Where discovery fails, the one machine listed is this machine, and it is
/// entered through the local filesystem.
pub proof fn law_fallback_is_local(
    cwd: Option<Seq<char>>,
    hostname: Option<Seq<char>>,
    computername: Option<Seq<char>>,
    os: Seq<char>,
)
    ensures
        fallback_spec(cwd, hostname, computername, os).local,
        target_spec(fallback_spec(cwd, hostname, computername, os)) matches Ok(u) && u.scheme
            == SchemeView::Regular,
{
}

/// An SSH target written `user@host:port` reads back as that user, host and port.
pub proof fn law_ssh_target_with_port(user: Seq<char>, host: Seq<char>, port: Seq<char>)
    requires
        user.len() > 0,
        forall|i: int| 0 <= i < user.len() ==> #[trigger] user[i] != '@',
        port.len() > 0,
        all_digits(port),
        digits_value(port) <= 65535,
    ensures
        ssh_target_spec(user + seq!['@'] + host + seq![':'] + port) == Ok::<
            (Seq<char>, Seq<char>, u16),
            Seq<char>,
        >((user, host, digits_value(port) as u16)),
{
    let hp = host + seq![':'] + port;
    let t = user + seq!['@'] + hp;
    assert(t == user + seq!['@'] + host + seq![':'] + port);
    let u = user.len() as int;
    assert forall|k: int| 0 <= k < u implies other_than('@')(#[trigger] t[k]) by {
        assert(t[k] == user[k]);
    }
    assert(t[u] == '@');
    lemma_drop_while_skip(t, other_than('@'), u);
    assert(t.take(u) =~= user);
    assert(t.skip(u + 1) =~= hp);
    let h = host.len() as int;
    assert forall|k: int| h + 1 <= k < hp.len() implies other_than(':')(#[trigger] hp[k]) by {
        assert(hp[k] == port[k - h - 1]);
        assert(is_digit(port[k - h - 1]));
    }
    assert(hp[h] == ':');
    lemma_drop_end_while_take(hp, other_than(':'), h + 1);
    assert(hp.take(h + 1).drop_last() =~= host);
    assert(hp.skip(h + 1) =~= port);
}

/// An SSH target written `user@host`, with no `:` in the host, reads back
/// as that user and host on port 22.
pub proof fn law_ssh_target_default_port(user: Seq<char>, host: Seq<char>)
    requires
        user.len() > 0,
        forall|i: int| 0 <= i < user.len() ==> #[trigger] user[i] != '@',
        host.len() > 0,
        forall|i: int| 0 <= i < host.len() ==> #[trigger] host[i] != ':',
    ensures
        ssh_target_spec(user + seq!['@'] + host) == Ok::<(Seq<char>, Seq<char>, u16), Seq<char>>(
            (user, host, DEFAULT_SSH_PORT),
        ),
{
    let t = user + seq!['@'] + host;
    let u = user.len() as int;
    assert forall|k: int| 0 <= k < u implies other_than('@')(#[trigger] t[k]) by {
        assert(t[k] == user[k]);
    }
    assert(t[u] == '@');
    lemma_drop_while_skip(t, other_than('@'), u);
    assert(t.take(u) =~= user);
    assert(t.skip(u + 1) =~= host);
    assert forall|k: int| 0 <= k < host.len() implies other_than(':')(#[trigger] host[k]) by {}
    lemma_drop_end_while_take(host, other_than(':'), 0);
}

/// Machines of one id keep their order, so a machine found among those of its id was listed.
proof fn lemma_with_id_member(s: Seq<MachineView>, i: int)
    requires
        0 <= i < s.len(),
    ensures
        with_id(s, s[i].machine_id).contains(s[i]),
{
    let pred = |v: MachineView| v.machine_id == s[i].machine_id;
    s.lemma_filter_contains(pred, i);
}

/// A sequence sorted by id is determined by what it holds of each id: two
/// sorted sequences that hold the same machines of each id, in the same
/// order, are the same.
pub proof fn law_stable_sort_is_unique(a: Seq<MachineView>, b: Seq<MachineView>)
    requires
        sorted_by_id(a),
        sorted_by_id(b),
        forall|id: Seq<char>| #[trigger] with_id(a, id) == with_id(b, id),
    ensures
        a == b,
    decreases a.len() + b.len(),
{
    reveal(Seq::filter);
    if a.len() == 0 || b.len() == 0 {
        if b.len() > 0 {
            lemma_with_id_member(b, 0);
            assert(with_id(a, b[0].machine_id).len() == 0);
        }
        if a.len() > 0 {
            lemma_with_id_member(a, 0);
            assert(with_id(b, a[0].machine_id).len() == 0);
        }
        assert(a =~= b);
    } else {
        let x = a.last();
        let y = b.last();
        let kx = x.machine_id;
        let ky = y.machine_id;
        let px = |v: MachineView| v.machine_id == kx;
        let py = |v: MachineView| v.machine_id == ky;
        // The last ids are the same: each is in the other sequence, below its last.
        lemma_with_id_member(a, a.len() - 1);
        assert(with_id(b, kx).contains(x));
        b.lemma_filter_contains_rev(px, x);
        let j = choose|j: int| 0 <= j < b.len() && b[j] == x;
        assert(chars_le(kx, ky)) by {
            if j < b.len() - 1 {
                assert(chars_le(b[j].machine_id, b[b.len() - 1].machine_id));
            }
        }
        lemma_with_id_member(b, b.len() - 1);
        assert(with_id(a, ky).contains(y));
        a.lemma_filter_contains_rev(py, y);
        let i = choose|i: int| 0 <= i < a.len() && a[i] == y;
        assert(chars_le(ky, kx)) by {
            if i < a.len() - 1 {
                assert(chars_le(a[i].machine_id, a[a.len() - 1].machine_id));
            }
        }
        if kx != ky {
            lemma_lt_transitive(kx, ky, kx);
            lemma_lt_irreflexive(kx);
        }
        // The last machines are the same, and so is what precedes them.
        let a0 = a.drop_last();
        let b0 = b.drop_last();
        assert(a0.push(x) == a);
        assert(b0.push(y) == b);
        a0.lemma_filter_push(x, px);
        b0.lemma_filter_push(y, px);
        assert(with_id(a, kx) == with_id(a0, kx).push(x));
        assert(with_id(b, kx) == with_id(b0, kx).push(y));
        assert(x == with_id(a, kx).last());
        assert(y == with_id(b, kx).last());
        assert(with_id(a0, kx) =~= with_id(a, kx).drop_last());
        assert(with_id(b0, kx) =~= with_id(b, kx).drop_last());
        assert forall|id: Seq<char>| #[trigger] with_id(a0, id) == with_id(b0, id) by {
            let p = |v: MachineView| v.machine_id == id;
            a0.lemma_filter_push(x, p);
            b0.lemma_filter_push(y, p);
            if id != kx {
                assert(with_id(a, id) == with_id(a0, id));
                assert(with_id(b, id) == with_id(b0, id));
            }
        }
        assert(sorted_by_id(a0)) by {
            assert forall|p: int, q: int| 0 <= p < q < a0.len() implies chars_le(
                #[trigger] a0[p].machine_id,
                #[trigger] a0[q].machine_id,
            ) by {
                assert(a0[p] == a[p] && a0[q] == a[q]);
            }
        }
        assert(sorted_by_id(b0)) by {
            assert forall|p: int, q: int| 0 <= p < q < b0.len() implies chars_le(
                #[trigger] b0[p].machine_id,
                #[trigger] b0[q].machine_id,
            ) by {
                assert(b0[p] == b[p] && b0[q] == b[q]);
            }
        }
        law_stable_sort_is_unique(a0, b0);
    }
}

/// Entering the entry of a listed machine with a plain id, once the listing
/// is recorded, leads to the last machine of the listing that has that id.
pub proof fn law_listed_entry_leads_to_last_listed(listing: Seq<MachineView>, i: int)
    requires
        0 <= i < listing.len(),
        is_plain_id(listing[i].machine_id),
    ensures
        entry_slug_spec(entry_url_spec(listing[i])) == Some(listing[i].machine_id),
        cache_map(listing).contains_key(listing[i].machine_id),
        cache_map(listing)[listing[i].machine_id] == with_id(listing, listing[i].machine_id).last(),
{
    law_entry_slug_is_machine_id(listing[i]);
    lemma_with_id_member(listing, i);
    lemma_cache_map_last(listing, listing[i].machine_id);
}

/// The name of a machine's entry is a safe path component: never empty,
/// free of characters a path component cannot hold, and not padded with whitespace.
pub proof fn law_entry_name_is_safe(m: MachineView)
    ensures
        entry_name_spec(m).len() > 0,
        forall|i: int|
            0 <= i < entry_name_spec(m).len() ==> is_clean_char(#[trigger] entry_name_spec(m)[i]),
        !is_unicode_whitespace(entry_name_spec(m)[0]),
        !is_unicode_whitespace(entry_name_spec(m).last()),
{
    law_clean_component_is_safe(entry_label(m));
}

/// A line of `ssh -G` output without a value, or whose key is none of
/// `hostname`, `user`, `port`, `identityfile`, `certificatefile` and
/// `identityagent`, changes nothing.
pub proof fn law_config_unknown_line_ignored(cfg: SshConfigView, line: Seq<char>, home: Seq<char>)
    requires
        !is_setting_line(line, "hostname"@),
        !is_setting_line(line, "user"@),
        !is_setting_line(line, "port"@),
        !is_setting_line(line, "identityfile"@),
        !is_setting_line(line, "certificatefile"@),
        !is_setting_line(line, "identityagent"@),
    ensures
        apply_line(cfg, line, home) == cfg,
{
    lemma_line_key_len(line);
}

/// Lines that leave a field of the configuration as it is leave it so when
/// they follow others.
proof fn lemma_fold_keeps_field<A>(
    pre: Seq<Seq<char>>,
    rest: Seq<Seq<char>>,
    home: Seq<char>,
    field: spec_fn(SshConfigView) -> A,
)
    requires
        forall|cfg: SshConfigView, i: int|
            0 <= i < rest.len() ==> field(#[trigger] apply_line(cfg, rest[i], home)) == field(cfg),
    ensures
        field((pre + rest).fold_left(empty_config(), line_step(home))) == field(
            pre.fold_left(empty_config(), line_step(home)),
        ),
    decreases rest.len(),
{
    if rest.len() == 0 {
        assert(pre + rest == pre);
    } else {
        let rest0 = rest.drop_last();
        assert forall|cfg: SshConfigView, i: int| 0 <= i < rest0.len() implies field(
            #[trigger] apply_line(cfg, rest0[i], home),
        ) == field(cfg) by {
            assert(rest0[i] == rest[i]);
            assert(field(apply_line(cfg, rest[i], home)) == field(cfg));
        }
        lemma_fold_keeps_field(pre, rest0, home, field);
        let all = pre + rest;
        assert(all.drop_last() == pre + rest0);
        assert(all.last() == rest[rest.len() - 1]);
        let before = (pre + rest0).fold_left(empty_config(), line_step(home));
        assert(field(apply_line(before, rest[rest.len() - 1], home)) == field(before));
    }
}

/// The host of the last `hostname` line of `ssh -G` output is the host the
/// output says, whatever came before it.
pub proof fn law_config_last_host_wins(
    raw: Seq<char>,
    home: Seq<char>,
    pre: Seq<Seq<char>>,
    line: Seq<char>,
    rest: Seq<Seq<char>>,
)
    requires
        lines(raw) == pre.push(line) + rest,
        is_setting_line(line, "hostname"@),
        forall|i: int| 0 <= i < rest.len() ==> !is_setting_line(#[trigger] rest[i], "hostname"@),
    ensures
        parse_ssh_config_spec(raw, home).host == nonempty_trimmed(line_value(line)),
{
    let field = |c: SshConfigView| c.host;
    assert forall|cfg: SshConfigView, i: int| 0 <= i < rest.len() implies field(
        #[trigger] apply_line(cfg, rest[i], home),
    ) == field(cfg) by {
        assert(!is_setting_line(rest[i], "hostname"@));
        lemma_line_key_len(rest[i]);
    }
    lemma_fold_keeps_field(pre.push(line), rest, home, field);
    assert(pre.push(line).drop_last() == pre);
}

/// The user of the last `user` line of `ssh -G` output is the user the
/// output says, whatever came before it.
pub proof fn law_config_last_user_wins(
    raw: Seq<char>,
    home: Seq<char>,
    pre: Seq<Seq<char>>,
    line: Seq<char>,
    rest: Seq<Seq<char>>,
)
    requires
        lines(raw) == pre.push(line) + rest,
        is_setting_line(line, "user"@),
        forall|i: int| 0 <= i < rest.len() ==> !is_setting_line(#[trigger] rest[i], "user"@),
    ensures
        parse_ssh_config_spec(raw, home).user == nonempty_trimmed(line_value(line)),
{
    reveal_strlit("hostname");
    reveal_strlit("user");
    let field = |c: SshConfigView| c.user;
    assert(!eq_ignore_ascii_case(line_key(line), "hostname"@));
    assert forall|cfg: SshConfigView, i: int| 0 <= i < rest.len() implies field(
        #[trigger] apply_line(cfg, rest[i], home),
    ) == field(cfg) by {
        assert(!is_setting_line(rest[i], "user"@));
        lemma_line_key_len(rest[i]);
    }
    lemma_fold_keeps_field(pre.push(line), rest, home, field);
    assert(pre.push(line).drop_last() == pre);
}

/// The port of the last `port` line of `ssh -G` output is the port the
/// output says, whatever came before it.
pub proof fn law_config_last_port_wins(
    raw: Seq<char>,
    home: Seq<char>,
    pre: Seq<Seq<char>>,
    line: Seq<char>,
    rest: Seq<Seq<char>>,
)
    requires
        lines(raw) == pre.push(line) + rest,
        is_setting_line(line, "port"@),
        forall|i: int| 0 <= i < rest.len() ==> !is_setting_line(#[trigger] rest[i], "port"@),
    ensures
        parse_ssh_config_spec(raw, home).port == parse_u16_spec(line_value(line)),
{
    reveal_strlit("hostname");
    reveal_strlit("user");
    reveal_strlit("port");
    let field = |c: SshConfigView| c.port;
    let key = line_key(line);
    assert(!eq_ignore_ascii_case(key, "hostname"@));
    assert(!eq_ignore_ascii_case(key, "user"@)) by {
        assert(lower_code(key[0]) == lower_code("port"@[0]));
    }
    assert forall|cfg: SshConfigView, i: int| 0 <= i < rest.len() implies field(
        #[trigger] apply_line(cfg, rest[i], home),
    ) == field(cfg) by {
        assert(!is_setting_line(rest[i], "port"@));
        lemma_line_key_len(rest[i]);
    }
    lemma_fold_keeps_field(pre.push(line), rest, home, field);
    assert(pre.push(line).drop_last() == pre);
}

/// The identity agent of the last `identityagent` line of `ssh -G` output
/// is the agent the output names, whatever came before it.
pub proof fn law_config_last_agent_wins(
    raw: Seq<char>,
    home: Seq<char>,
    pre: Seq<Seq<char>>,
    line: Seq<char>,
    rest: Seq<Seq<char>>,
)
    requires
        lines(raw) == pre.push(line) + rest,
        is_setting_line(line, "identityagent"@),
        forall|i: int| 0 <= i < rest.len() ==> !is_setting_line(#[trigger] rest[i], "identityagent"@),
    ensures
        parse_ssh_config_spec(raw, home).identity_agent == config_path_spec(line_value(line), home),
{
    reveal_strlit("hostname");
    reveal_strlit("user");
    reveal_strlit("port");
    reveal_strlit("identityfile");
    reveal_strlit("certificatefile");
    reveal_strlit("identityagent");
    let field = |c: SshConfigView| c.identity_agent;
    let key = line_key(line);
    assert(!eq_ignore_ascii_case(key, "hostname"@));
    assert(!eq_ignore_ascii_case(key, "user"@));
    assert(!eq_ignore_ascii_case(key, "port"@));
    assert(!eq_ignore_ascii_case(key, "identityfile"@));
    assert(!eq_ignore_ascii_case(key, "certificatefile"@));
    assert forall|cfg: SshConfigView, i: int| 0 <= i < rest.len() implies field(
        #[trigger] apply_line(cfg, rest[i], home),
    ) == field(cfg) by {
        assert(!is_setting_line(rest[i], "identityagent"@));
        lemma_line_key_len(rest[i]);
    }
    lemma_fold_keeps_field(pre.push(line), rest, home, field);
    assert(pre.push(line).drop_last() == pre);
}

/// A listed machine keeps the heartbeat status that the topology gives it;
/// only a machine listed without one reads as `unknown`. The status of one
/// listed machine does not depend on this machine's id or working directory.
pub proof fn law_listed_status_is_kept(
    t: TopologyMachine,
    local_id: Seq<char>,
    cwd: Option<Seq<char>>,
    other_id: Seq<char>,
    other_cwd: Option<Seq<char>>,
)
    ensures
        t.heartbeat_status matches Some(h) ==> machine_of(t, local_id, cwd).heartbeat_status == h@,
        t.heartbeat_status is None ==> machine_of(t, local_id, cwd).heartbeat_status == "unknown"@,
        machine_of(t, local_id, cwd).heartbeat_status == machine_of(
            t,
            other_id,
            other_cwd,
        ).heartbeat_status,
        machine_of(t, local_id, cwd).machine_id == t.machine_id@,
{
}

/// Of the key or certificate files that `ssh -G` lists, the first that is a
/// file wins: when the file at `i` is one and none before it is, it is the
/// one resolved, whatever `current` was and whatever follows it.
pub proof fn law_first_existing_file_wins(
    paths: Seq<Seq<char>>,
    flags: Seq<bool>,
    i: int,
    current: Seq<char>,
)
    requires
        paths.len() == flags.len(),
        0 <= i < paths.len(),
        flags[i],
        forall|j: int| 0 <= j < i ==> !#[trigger] flags[j],
    ensures
        first_flagged(paths, flags) == Some(paths[i]),
        or_keep(first_flagged(paths, flags), current) == paths[i],
{
    lemma_first_flagged_skip(paths, flags, i);
    assert(paths.skip(i)[0] == paths[i]);
    assert(flags.skip(i)[0] == flags[i]);
}

/// Where none of the listed key or certificate files is a file, the
/// setting stays as it was.
pub proof fn law_no_existing_file_keeps(paths: Seq<Seq<char>>, flags: Seq<bool>, current: Seq<char>)
    requires
        paths.len() == flags.len(),
        forall|j: int| 0 <= j < flags.len() ==> !#[trigger] flags[j],
    ensures
        first_flagged(paths, flags) is None,
        or_keep(first_flagged(paths, flags), current) == current,
{
    lemma_first_flagged_skip(paths, flags, paths.len() as int);
}

/// Outside the machines directory, entering a directory leads to that very
/// URL, scheme and SFTP domain included; only a search result leads to the
/// local directory of its path.
pub proof fn law_enter_keeps_the_directory(h: UrlView)
    ensures
        !(h.scheme is Search) ==> enter_directory_spec(h) == h,
        h.scheme is Search ==> enter_directory_spec(h) == (UrlView {
            scheme: SchemeView::Regular,
            path: h.path,
        }),
        enter_directory_spec(h).path == h.path,
{
}

/// Start-up opens the machine chooser only when no path, no cwd file and no
/// chooser file is given and the layer is on; any one of them opens the
/// given tabs instead.
pub proof fn law_chooser_only_without_paths(input: BootstrapInput)
    ensures
        input.has_entries ==> !opens_machine_root(input),
        input.has_cwd_file ==> !opens_machine_root(input),
        input.has_chooser_file ==> !opens_machine_root(input),
        !input.machines_layer ==> !opens_machine_root(input),
        !input.has_entries && !input.has_cwd_file && !input.has_chooser_file
            && input.machines_layer ==> opens_machine_root(input),
{
}

/// The title an entry shows is the friendly name where the machine has one,
/// and the display name only where it has none.
pub proof fn law_entry_title_prefers_friendly_name(m: MachineView)
    ensures
        m.friendly_name matches Some(f) ==> entry_title(m) == f,
        m.friendly_name is None ==> entry_title(m) == m.display_name,
{
}

/// Where a machine has a friendly name, its display name does not change
/// the name of its entry.
pub proof fn law_display_name_hidden_by_friendly_name(m1: MachineView, m2: MachineView)
    requires
        m1.friendly_name is Some,
        m2 == (MachineView { display_name: m2.display_name, ..m1 }),
    ensures
        entry_name_spec(m1) == entry_name_spec(m2),
{
    assert(entry_parts(m1) == entry_parts(m2));
    assert(entry_title(m1) == entry_title(m2));
    assert(entry_label(m1) == entry_label(m2));
}

/// A listed machine is local exactly where its id is this machine's id or
/// its route is `local`; a local machine is entered at the working
/// directory where that is known, and a remote one at its listed workspace,
/// whatever the working directory.
pub proof fn law_listed_machine_locality(
    t: TopologyMachine,
    local_id: Seq<char>,
    cwd: Option<Seq<char>>,
    other_cwd: Option<Seq<char>>,
)
    ensures
        machine_of(t, local_id, cwd).local <==> (t.machine_id@ == local_id
            || machine_of(t, local_id, cwd).route == "local"@),
        t.ssh is None ==> machine_of(t, local_id, cwd).route == "unknown"@,
        match t.ssh {
            Some(ssh) => match ssh.route {
                Some(r) => machine_of(t, local_id, cwd).route == r@,
                None => machine_of(t, local_id, cwd).route == "unknown"@,
            },
            None => true,
        },
        machine_of(t, local_id, cwd).local && cwd is Some ==> machine_of(t, local_id, cwd).workspace_path
            == cwd,
        !machine_of(t, local_id, cwd).local ==> machine_of(t, local_id, cwd).workspace_path
            == machine_of(t, local_id, other_cwd).workspace_path,
        t.display_name matches Some(d) ==> machine_of(t, local_id, cwd).display_name == d@,
        t.display_name is None ==> machine_of(t, local_id, cwd).display_name == t.machine_id@,
{
}

} // verus!
