use vstd::prelude::*;

use crate::error::{ErrorKind, MachineError};
use crate::files::{machine_entry_file, File, MODE_ENTRY_DIR};
use crate::machine::{entry_name, entry_name_spec, Machine, MachineView};
use crate::order::{is_stable_sort_of, sort_machines, views, with_id};
use crate::text::{chars_of, trim, trim_str};
use crate::url::{join_path, root_path, root_url, SchemeView, UrlBuf, UrlScheme, UrlView};

verus! {

/// The machines by id after each of `s` was recorded in turn: where two
/// share an id, the later one stays.
pub open spec fn cache_map(s: Seq<MachineView>) -> Map<Seq<char>, MachineView>
    decreases s.len(),
{
    if s.len() == 0 {
        Map::empty()
    } else {
        cache_map(s.drop_last()).insert(s.last().machine_id, s.last())
    }
}

/// The machines of the last listing, by id.
pub struct MachineCache {
    machines: Vec<Machine>,
}

impl View for MachineCache {
    type V = Map<Seq<char>, MachineView>;

    closed spec fn view(&self) -> Map<Seq<char>, MachineView> {
        cache_map(views(self.machines@))
    }
}

/// Recording machines whose ids all differ from `id` leaves what is known of `id` as it was.
proof fn lemma_cache_map_suffix(s: Seq<MachineView>, i: int, id: Seq<char>)
    requires
        0 <= i <= s.len(),
        forall|j: int| i <= j < s.len() ==> #[trigger] s[j].machine_id != id,
    ensures
        cache_map(s).contains_key(id) == cache_map(s.take(i)).contains_key(id),
        cache_map(s).contains_key(id) ==> cache_map(s)[id] == cache_map(s.take(i))[id],
    decreases s.len() - i,
{
    if i == s.len() {
        assert(s.take(i) == s);
    } else {
        let t = s.drop_last();
        assert forall|j: int| i <= j < t.len() implies #[trigger] t[j].machine_id != id by {
            assert(t[j] == s[j]);
        }
        lemma_cache_map_suffix(t, i, id);
        assert(t.take(i) == s.take(i));
        assert(s.last() == s[s.len() - 1]);
    }
}

/// The machine recorded under an id is the last of the recorded machines
/// with that id, and there is one exactly where some machine has it.
pub proof fn lemma_cache_map_last(s: Seq<MachineView>, id: Seq<char>)
    ensures
        cache_map(s).contains_key(id) <==> with_id(s, id).len() > 0,
        cache_map(s).contains_key(id) ==> cache_map(s)[id] == with_id(s, id).last(),
    decreases s.len(),
{
    if s.len() > 0 {
        let t = s.drop_last();
        lemma_cache_map_last(t, id);
        assert(t.push(s.last()) == s);
        t.lemma_filter_push(s.last(), |v: MachineView| v.machine_id == id);
    }
}

/// What a cache records of a listing does not depend on how the listing is
/// stably sorted: the machines that share an id stay in their order.
pub proof fn lemma_cache_map_of_stable_sort(input: Seq<MachineView>, output: Seq<MachineView>)
    requires
        is_stable_sort_of(input, output),
    ensures
        cache_map(output) == cache_map(input),
{
    assert forall|id: Seq<char>| #[trigger] cache_map(output).contains_key(id)
        == cache_map(input).contains_key(id) by {
        lemma_cache_map_last(output, id);
        lemma_cache_map_last(input, id);
        assert(with_id(output, id) == with_id(input, id));
    }
    assert forall|id: Seq<char>| cache_map(output).contains_key(id) implies #[trigger] cache_map(
        output,
    )[id] == cache_map(input)[id] by {
        lemma_cache_map_last(output, id);
        lemma_cache_map_last(input, id);
        assert(with_id(output, id) == with_id(input, id));
    }
    assert(cache_map(output) =~= cache_map(input));
}

impl MachineCache {
    /// A cache that records no machine.
    pub fn new() -> (c: MachineCache)
        ensures
            c@ == Map::<Seq<char>, MachineView>::empty(),
    {
        let c = MachineCache { machines: Vec::new() };
        assert(views(c.machines@) =~= Seq::<MachineView>::empty());
        c
    }

    /// Forgets what was recorded, then records `machines` in turn.
    pub fn refresh(&mut self, machines: &Vec<Machine>)
        ensures
            final(self)@ == cache_map(views(machines@)),
    {
        self.machines.clear();
        let mut i: usize = 0;
        while i < machines.len()
            invariant
                i <= machines.len(),
                views(self.machines@) == views(machines@).take(i as int),
            decreases machines.len() - i,
        {
            let m = machines[i].duplicate();
            let ghost before = self.machines@;
            self.machines.push(m);
            assert(views(machines@)[i as int] == machines@[i as int]@);
            assert(views(self.machines@) =~= views(before).push(m@));
            assert(views(self.machines@) =~= views(machines@).take(i + 1));
            i = i + 1;
        }
        assert(views(machines@).take(machines.len() as int) == views(machines@));
    }

    /// A copy of the machine recorded under `slug`.
    pub fn get(&self, slug: &str) -> (r: Option<Machine>)
        ensures
            r is Some <==> self@.contains_key(slug@),
            r matches Some(m) ==> m@ == self@[slug@],
    {
        let key = String::from_str(slug);
        let ghost s = views(self.machines@);
        let mut i: usize = self.machines.len();
        while i > 0
            invariant
                i <= self.machines.len(),
                s == views(self.machines@),
                key@ == slug@,
                forall|j: int| i <= j < s.len() ==> #[trigger] s[j].machine_id != slug@,
            decreases i,
        {
            if self.machines[i - 1].machine_id == key {
                proof {
                    lemma_cache_map_suffix(s, i as int, slug@);
                    assert(s.take(i as int).drop_last() == s.take(i - 1));
                    assert(s.take(i as int).last() == s[i - 1]);
                }
                return Some(self.machines[i - 1].duplicate());
            }
            i = i - 1;
        }
        proof {
            lemma_cache_map_suffix(s, 0, slug@);
        }
        None
    }
}

/// The workspace a machine is entered at: its workspace path where that
/// holds more than whitespace, else `/`.
pub open spec fn workspace_or_root(m: MachineView) -> Seq<char> {
    match m.workspace_path {
        Some(p) => if trim(p).len() > 0 {
            p
        } else {
            "/"@
        },
        None => "/"@,
    }
}

/// The message of the failure to enter a remote machine whose workspace is not absolute.
pub open spec fn relative_workspace_message(m: MachineView) -> Seq<char> {
    "Remote machine "@ + m.machine_id + " has non-absolute workspace path: "@ + workspace_or_root(
        m,
    )
}

/// Where entering a machine leads: its workspace on the local filesystem for
/// a local machine, else that workspace on the machine's SFTP service, which
/// must be absolute.
pub open spec fn target_spec(m: MachineView) -> Result<UrlView, (ErrorKind, Seq<char>)> {
    let path = workspace_or_root(m);
    if m.local {
        Ok(UrlView { scheme: SchemeView::Regular, path })
    } else if path[0] != '/' {
        Err((ErrorKind::InvalidData, relative_workspace_message(m)))
    } else {
        Ok(UrlView { scheme: SchemeView::Sftp(m.machine_id), path })
    }
}

/// Whether a failure or URL is what `spec` describes.
pub open spec fn matches_target(
    r: Result<UrlBuf, MachineError>,
    spec: Result<UrlView, (ErrorKind, Seq<char>)>,
) -> bool {
    match (r, spec) {
        (Ok(u), Ok(v)) => u@ == v,
        (Err(e), Err((k, msg))) => e.kind == k && e.message@ == msg,
        _ => false,
    }
}

/// Where entering `machine` leads.
pub fn target_url(machine: &Machine) -> (r: Result<UrlBuf, MachineError>)
    ensures
        matches_target(r, target_spec(machine@)),
{
    proof {
        reveal_strlit("/");
    }
    let path = match &machine.workspace_path {
        Some(p) => {
            let t = trim_str(p.as_str());
            if t.as_str().is_empty() {
                String::from_str("/")
            } else {
                p.clone()
            }
        },
        None => String::from_str("/"),
    };
    assert(path@ == workspace_or_root(machine@));
    if machine.local {
        return Ok(UrlBuf::from_path(path));
    }
    let first = chars_of(path.as_str());
    if first[0] != '/' {
        let mut message = String::from_str("Remote machine ");
        message.append(machine.machine_id.as_str());
        message.append(" has non-absolute workspace path: ");
        message.append(path.as_str());
        return Err(MachineError::new(ErrorKind::InvalidData, message));
    }
    Ok(UrlBuf { scheme: UrlScheme::Sftp(machine.machine_id.clone()), path })
}

/// Where entering the machine recorded under `slug` leads.
pub fn target_for_cached(cache: &MachineCache, slug: &str) -> (r: Result<UrlBuf, MachineError>)
    ensures
        !cache@.contains_key(slug@) ==> (r matches Err(e) && e.kind == ErrorKind::NotFound
            && e.message@ == "Unknown machine: "@ + slug@),
        cache@.contains_key(slug@) ==> matches_target(r, target_spec(cache@[slug@])),
{
    match cache.get(slug) {
        Some(machine) => target_url(&machine),
        None => {
            let mut message = String::from_str("Unknown machine: ");
            message.append(slug);
            Err(MachineError::new(ErrorKind::NotFound, message))
        },
    }
}

/// The URL of the entry that stands for `m` in the machines directory.
pub open spec fn entry_url_spec(m: MachineView) -> UrlView {
    UrlView { scheme: SchemeView::Regular, path: join_path(root_path(), entry_name_spec(m)) }
}

/// Whether `f` is the entry that stands for `m`.
pub open spec fn is_entry_of(f: File, m: MachineView) -> bool {
    &&& f.url@ == entry_url_spec(m)
    &&& !f.cha.dummy
    &&& !f.cha.hidden
    &&& f.cha.mode == MODE_ENTRY_DIR
    &&& f.link_to is None
}

/// The entries of the machines directory for the listed `machines`, sorted
/// by id; `cache` afterwards records the listed machines.
pub fn root_files_from(machines: Vec<Machine>, cache: &mut MachineCache) -> (files: Vec<File>)
    ensures
        final(cache)@ == cache_map(views(machines@)),
        exists|sorted: Seq<MachineView>|
            {
                &&& is_stable_sort_of(views(machines@), sorted)
                &&& files.len() == sorted.len()
                &&& forall|i: int| 0 <= i < sorted.len() ==> is_entry_of(#[trigger] files@[i], sorted[i])
            },
{
    let ghost input = views(machines@);
    let sorted = sort_machines(machines);
    cache.refresh(&sorted);
    proof {
        lemma_cache_map_of_stable_sort(input, views(sorted@));
    }
    let root = root_url();
    let mut files: Vec<File> = Vec::new();
    let mut i: usize = 0;
    while i < sorted.len()
        invariant
            i <= sorted.len(),
            root@ == (UrlView { scheme: SchemeView::Regular, path: root_path() }),
            files.len() == i,
            forall|j: int| 0 <= j < i ==> is_entry_of(#[trigger] files@[j], sorted@[j]@),
        decreases sorted.len() - i,
    {
        let name = entry_name(&sorted[i]);
        let url = root.join(name.as_str());
        files.push(machine_entry_file(url));
        i = i + 1;
    }
    proof {
        let sv = views(sorted@);
        assert forall|j: int| 0 <= j < sv.len() implies is_entry_of(#[trigger] files@[j], sv[j]) by {
            assert(sv[j] == sorted@[j]@);
        }
    }
    files
}

} // verus!
