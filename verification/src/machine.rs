use vstd::prelude::*;

use crate::text::{chars_of, is_control, is_control_char, string_from, trim, trim_bounds};

verus! {

/// A machine of the fleet, as the chooser lists it.
#[derive(Clone, Debug)]
pub struct Machine {
    pub machine_id: String,
    pub friendly_name: Option<String>,
    pub display_name: String,
    pub platform: Option<String>,
    pub workspace_path: Option<String>,
    pub heartbeat_status: String,
    pub route: String,
    pub local: bool,
}

/// What a [`Machine`] holds, as sequences of characters.
pub struct MachineView {
    pub machine_id: Seq<char>,
    pub friendly_name: Option<Seq<char>>,
    pub display_name: Seq<char>,
    pub platform: Option<Seq<char>>,
    pub workspace_path: Option<Seq<char>>,
    pub heartbeat_status: Seq<char>,
    pub route: Seq<char>,
    pub local: bool,
}

/// The characters of an optional string.
pub open spec fn opt_chars(o: Option<String>) -> Option<Seq<char>> {
    match o {
        Some(s) => Some(s@),
        None => None,
    }
}

impl View for Machine {
    type V = MachineView;

    open spec fn view(&self) -> MachineView {
        MachineView {
            machine_id: self.machine_id@,
            friendly_name: opt_chars(self.friendly_name),
            display_name: self.display_name@,
            platform: opt_chars(self.platform),
            workspace_path: opt_chars(self.workspace_path),
            heartbeat_status: self.heartbeat_status@,
            route: self.route@,
            local: self.local,
        }
    }
}

/// A copy of an optional string.
pub fn clone_opt(o: &Option<String>) -> (r: Option<String>)
    ensures
        opt_chars(r) == opt_chars(*o),
{
    match o {
        Some(s) => Some(s.clone()),
        None => None,
    }
}

impl Machine {
    /// A copy of this machine.
    pub fn duplicate(&self) -> (r: Machine)
        ensures
            r@ == self@,
    {
        Machine {
            machine_id: self.machine_id.clone(),
            friendly_name: clone_opt(&self.friendly_name),
            display_name: self.display_name.clone(),
            platform: clone_opt(&self.platform),
            workspace_path: clone_opt(&self.workspace_path),
            heartbeat_status: self.heartbeat_status.clone(),
            route: self.route.clone(),
            local: self.local,
        }
    }
}

/// The characters that cannot stand in a path component.
pub open spec fn is_unsafe_path_char(c: char) -> bool {
    c == '/' || c == '\\' || c == '\0' || c == ':' || c == '"' || c == '<' || c == '>' || c == '|'
        || c == '?' || c == '*'
}

/// A character as it stands in a cleaned path component.
pub open spec fn clean_char(c: char) -> char {
    if is_unsafe_path_char(c) || is_control_char(c) {
        '-'
    } else {
        c
    }
}

/// `s` with every unsafe or control character replaced by `-`.
pub open spec fn clean_chars(s: Seq<char>) -> Seq<char> {
    s.map_values(|c: char| clean_char(c))
}

/// `s` with every unsafe or control character replaced by `-`, trimmed,
/// and `unnamed` where nothing is left.
pub open spec fn clean_component_spec(s: Seq<char>) -> Seq<char> {
    let t = trim(clean_chars(s));
    if t.len() == 0 {
        "unnamed"@
    } else {
        t
    }
}

/// `s` made safe to stand as one path component.
pub fn clean_component(s: &str) -> (r: String)
    ensures
        r@ == clean_component_spec(s@),
{
    let v = chars_of(s);
    let mut w: Vec<char> = Vec::new();
    let mut i: usize = 0;
    while i < v.len()
        invariant
            i <= v.len(),
            v@ == s@,
            w@ == clean_chars(v@.take(i as int)),
        decreases v.len() - i,
    {
        let c = v[i];
        let d = if c == '/' || c == '\\' || c == '\0' || c == ':' || c == '"' || c == '<' || c
            == '>' || c == '|' || c == '?' || c == '*' || is_control(c) {
            '-'
        } else {
            c
        };
        w.push(d);
        assert(clean_chars(v@.take(i + 1)) == clean_chars(v@.take(i as int)).push(clean_char(c)));
        i = i + 1;
    }
    assert(v@.take(v.len() as int) == v@);
    let (lo, hi) = trim_bounds(&w);
    if lo == hi {
        String::from_str("unnamed")
    } else {
        string_from(&w, lo, hi)
    }
}

/// The words of an entry's label that follow the machine's name: route,
/// heartbeat status and, where known, platform, separated by spaces.
pub open spec fn entry_parts(m: MachineView) -> Seq<char> {
    let head = m.route + seq![' '] + m.heartbeat_status;
    match m.platform {
        Some(p) => head + seq![' '] + p,
        None => head,
    }
}

/// The title an entry shows: the friendly name, else the display name.
pub open spec fn entry_title(m: MachineView) -> Seq<char> {
    match m.friendly_name {
        Some(f) => f,
        None => m.display_name,
    }
}

/// The label of a machine's entry before it is cleaned: `id [parts]`, or
/// `id title [parts]` where the title differs from the id.
pub open spec fn entry_label(m: MachineView) -> Seq<char> {
    let tail = seq!['['] + entry_parts(m) + seq![']'];
    if entry_title(m) == m.machine_id {
        m.machine_id + seq![' '] + tail
    } else {
        m.machine_id + seq![' '] + clean_component_spec(entry_title(m)) + seq![' '] + tail
    }
}

/// The name of the directory entry that stands for a machine.
pub open spec fn entry_name_spec(m: MachineView) -> Seq<char> {
    clean_component_spec(entry_label(m))
}

/// The name of the directory entry that stands for `machine`.
pub fn entry_name(machine: &Machine) -> (r: String)
    ensures
        r@ == entry_name_spec(machine@),
{
    proof {
        reveal_strlit(" ");
        reveal_strlit("[");
        reveal_strlit("]");
    }
    let mut parts = machine.route.clone();
    parts.append(" ");
    parts.append(machine.heartbeat_status.as_str());
    if let Some(platform) = &machine.platform {
        parts.append(" ");
        parts.append(platform.as_str());
    }
    let title = match &machine.friendly_name {
        Some(f) => f,
        None => &machine.display_name,
    };
    let mut label = machine.machine_id.clone();
    label.append(" ");
    if !(*title == machine.machine_id) {
        let cleaned = clean_component(title.as_str());
        label.append(cleaned.as_str());
        label.append(" ");
    }
    label.append("[");
    label.append(parts.as_str());
    label.append("]");
    proof {
        assert(parts@ == entry_parts(machine@));
        assert(label@ == entry_label(machine@));
    }
    clean_component(label.as_str())
}

} // verus!
