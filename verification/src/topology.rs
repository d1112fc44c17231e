use vstd::prelude::*;

use crate::machine::{clone_opt, opt_chars, Machine, MachineView};
use crate::text::{non_empty, trim};

verus! {

/// Seconds that discovery waits for `machines topology`.
pub const COMMAND_TIMEOUT_SECS: u64 = 10;

/// Seconds that discovery waits for `machines topology` when it asks again.
pub const COMMAND_RETRY_TIMEOUT_SECS: u64 = 20;

/// Seconds that `machines route` is waited for.
pub const ROUTE_TIMEOUT_SECS: u64 = 6;

/// Seconds that `ssh -G` is waited for.
pub const SSH_CONFIG_TIMEOUT_SECS: u64 = 3;

/// The SSH part of a machine in `machines topology` output.
#[derive(Debug)]
pub struct TopologySsh {
    pub route: Option<String>,
}

/// A machine as `machines topology` lists it.
#[derive(Debug)]
pub struct TopologyMachine {
    pub machine_id: String,
    pub friendly_name: Option<String>,
    pub display_name: Option<String>,
    pub platform: Option<String>,
    pub workspace_path: Option<String>,
    pub heartbeat_status: Option<String>,
    pub ssh: Option<TopologySsh>,
}

/// The output of `machines topology`: the id of this machine and the machines of the fleet.
#[derive(Debug)]
pub struct Topology {
    pub local_machine_id: String,
    pub machines: Vec<TopologyMachine>,
}

/// An optional string trimmed, none where nothing is left of it.
pub open spec fn opt_nonempty(o: Option<Seq<char>>) -> Option<Seq<char>> {
    match o {
        Some(s) => if trim(s).len() > 0 {
            Some(trim(s))
        } else {
            None
        },
        None => None,
    }
}

/// The route of a listed machine: its SSH route, else `unknown`.
pub open spec fn listed_route(t: TopologyMachine) -> Seq<char> {
    match t.ssh {
        Some(ssh) => match ssh.route {
            Some(r) => r@,
            None => "unknown"@,
        },
        None => "unknown"@,
    }
}

/// The machine that a listed machine stands for, `local_id` being the id of
/// this machine and `cwd` the working directory: it is local where its id is
/// `local_id` or its route is `local`, and a local machine is entered at the
/// working directory where that is known.
pub open spec fn machine_of(t: TopologyMachine, local_id: Seq<char>, cwd: Option<Seq<char>>) -> MachineView {
    let route = listed_route(t);
    let local = t.machine_id@ == local_id || route == "local"@;
    let listed_ws = opt_nonempty(opt_chars(t.workspace_path));
    MachineView {
        machine_id: t.machine_id@,
        friendly_name: opt_nonempty(opt_chars(t.friendly_name)),
        display_name: match t.display_name {
            Some(d) => d@,
            None => t.machine_id@,
        },
        platform: opt_nonempty(opt_chars(t.platform)),
        workspace_path: if local && cwd is Some {
            cwd
        } else {
            listed_ws
        },
        heartbeat_status: match t.heartbeat_status {
            Some(h) => h@,
            None => "unknown"@,
        },
        route,
        local,
    }
}

/// An optional string trimmed, none where nothing is left of it.
fn trimmed_opt(o: Option<String>) -> (r: Option<String>)
    ensures
        opt_chars(r) == opt_nonempty(opt_chars(o)),
{
    match o {
        Some(s) => non_empty(s),
        None => None,
    }
}

/// The machine that the listed machine `t` stands for.
pub fn machine_from_topology(t: TopologyMachine, local_id: &str, cwd: &Option<String>) -> (m: Machine)
    ensures
        m@ == machine_of(t, local_id@, opt_chars(*cwd)),
{
    let route = match t.ssh {
        Some(ssh) => match ssh.route {
            Some(r) => r,
            None => String::from_str("unknown"),
        },
        None => String::from_str("unknown"),
    };
    let local_id_s = String::from_str(local_id);
    let local_s = String::from_str("local");
    let local = t.machine_id == local_id_s || route == local_s;
    let display_name = match t.display_name {
        Some(d) => d,
        None => t.machine_id.clone(),
    };
    let listed_ws = trimmed_opt(t.workspace_path);
    let workspace_path = if local && cwd.is_some() {
        clone_opt(cwd)
    } else {
        listed_ws
    };
    let heartbeat_status = match t.heartbeat_status {
        Some(h) => h,
        None => String::from_str("unknown"),
    };
    Machine {
        machine_id: t.machine_id,
        friendly_name: trimmed_opt(t.friendly_name),
        display_name,
        platform: trimmed_opt(t.platform),
        workspace_path,
        heartbeat_status,
        route,
        local,
    }
}

/// The machines of a topology, in its order.
pub fn machines_from_topology(topology: Topology, cwd: &Option<String>) -> (r: Vec<Machine>)
    ensures
        r.len() == topology.machines.len(),
        forall|i: int| 0 <= i < r.len() ==> #[trigger] r@[i]@ == machine_of(
            topology.machines@[i],
            topology.local_machine_id@,
            opt_chars(*cwd),
        ),
{
    let ghost listed = topology.machines@;
    let local_id = topology.local_machine_id;
    let mut rest = topology.machines;
    let mut reversed: Vec<Machine> = Vec::new();
    while rest.len() > 0
        invariant
            rest.len() + reversed.len() == listed.len(),
            rest@ == listed.take(rest.len() as int),
            forall|j: int| 0 <= j < reversed.len() ==> #[trigger] reversed@[j]@ == machine_of(
                listed[listed.len() - 1 - j],
                local_id@,
                opt_chars(*cwd),
            ),
        decreases rest.len(),
    {
        let ghost n = rest.len() as int;
        let t = rest.pop().unwrap();
        assert(t == listed[n - 1]);
        assert(rest@ == listed.take(n - 1));
        reversed.push(machine_from_topology(t, local_id.as_str(), cwd));
    }
    let mut r: Vec<Machine> = Vec::new();
    while reversed.len() > 0
        invariant
            reversed.len() + r.len() == listed.len(),
            forall|j: int| 0 <= j < reversed.len() ==> #[trigger] reversed@[j]@ == machine_of(
                listed[listed.len() - 1 - j],
                local_id@,
                opt_chars(*cwd),
            ),
            forall|j: int| 0 <= j < r.len() ==> #[trigger] r@[j]@ == machine_of(
                listed[j],
                local_id@,
                opt_chars(*cwd),
            ),
        decreases reversed.len(),
    {
        let ghost n = reversed.len() as int;
        let ghost before = reversed@;
        let m = reversed.pop().unwrap();
        assert(m == before[n - 1]);
        assert forall|j: int| 0 <= j < reversed.len() implies #[trigger] reversed@[j]@ == machine_of(
            listed[listed.len() - 1 - j],
            local_id@,
            opt_chars(*cwd),
        ) by {
            assert(reversed@[j] == before[j]);
        }
        r.push(m);
    }
    r
}

/// The one machine listed where discovery fails: this machine, named after
/// `hostname`, else `computername`, else `local`, on the platform `os`, and
/// entered at the working directory `cwd`.
pub open spec fn fallback_spec(
    cwd: Option<Seq<char>>,
    hostname: Option<Seq<char>>,
    computername: Option<Seq<char>>,
    os: Seq<char>,
) -> MachineView {
    MachineView {
        machine_id: "local"@,
        friendly_name: None,
        display_name: match opt_nonempty(hostname) {
            Some(h) => h,
            None => match opt_nonempty(computername) {
                Some(c) => c,
                None => "local"@,
            },
        },
        platform: Some(os),
        workspace_path: cwd,
        heartbeat_status: "local"@,
        route: "local"@,
        local: true,
    }
}

/// The one machine listed where discovery fails.
pub fn fallback_machine(
    cwd: Option<String>,
    hostname: Option<String>,
    computername: Option<String>,
    os: &str,
) -> (m: Machine)
    ensures
        m@ == fallback_spec(opt_chars(cwd), opt_chars(hostname), opt_chars(computername), os@),
{
    let display_name = match trimmed_opt(hostname) {
        Some(h) => h,
        None => match trimmed_opt(computername) {
            Some(c) => c,
            None => String::from_str("local"),
        },
    };
    Machine {
        machine_id: String::from_str("local"),
        friendly_name: None,
        display_name,
        platform: Some(String::from_str(os)),
        workspace_path: cwd,
        heartbeat_status: String::from_str("local"),
        route: String::from_str("local"),
        local: true,
    }
}

/// How reading the output of `machines topology` went.
#[derive(Clone, Copy, Debug, PartialEq, Eq, Structural)]
pub enum TopologyRead {
    /// The output was a topology.
    Parsed,
    /// The output ended before the topology did.
    Truncated,
    /// The output was not a topology.
    Invalid,
}

/// What discovery does next.
#[derive(Clone, Copy, Debug, PartialEq, Eq, Structural)]
pub enum DiscoverAction {
    /// Use the topology that was read.
    Accept,
    /// Run `machines topology` again, waiting the given number of seconds.
    Retry(u64),
    /// Give up with the failure that reading reported.
    Fail,
}

/// What discovery does after reading the output of `machines topology`:
/// output that ended too soon is asked for once more, with a longer wait.
pub fn discover_next(retried: bool, read: TopologyRead) -> (a: DiscoverAction)
    ensures
        read == TopologyRead::Parsed ==> a == DiscoverAction::Accept,
        read == TopologyRead::Truncated && !retried ==> a == DiscoverAction::Retry(
            COMMAND_RETRY_TIMEOUT_SECS,
        ),
        read == TopologyRead::Truncated && retried ==> a == DiscoverAction::Fail,
        read == TopologyRead::Invalid ==> a == DiscoverAction::Fail,
{
    match read {
        TopologyRead::Parsed => DiscoverAction::Accept,
        TopologyRead::Truncated => if retried {
            DiscoverAction::Fail
        } else {
            DiscoverAction::Retry(COMMAND_RETRY_TIMEOUT_SECS)
        },
        TopologyRead::Invalid => DiscoverAction::Fail,
    }
}

} // verus!
