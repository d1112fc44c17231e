use vstd::prelude::*;

use crate::error::{ErrorKind, MachineError};
use crate::machine::opt_chars;
use crate::ssh::{matches_ssh_target, parse_ssh_target, ssh_target_spec};
use crate::text::{trim, trim_str};

verus! {

/// What `machines route` reports of the way to a machine.
#[derive(Debug)]
pub struct Route {
    pub ok: bool,
    pub route: String,
    pub target: Option<String>,
    pub command_target: Option<String>,
    pub local: bool,
    pub warnings: Option<Vec<String>>,
}

/// The strings of `list` with `sep` between each two.
pub open spec fn join_spec(list: Seq<Seq<char>>, sep: Seq<char>) -> Seq<char>
    decreases list.len(),
{
    if list.len() == 0 {
        Seq::empty()
    } else if list.len() == 1 {
        list[0]
    } else {
        join_spec(list.drop_last(), sep) + sep + list.last()
    }
}

/// The strings of `list` with `sep` between each two.
pub fn join(list: &Vec<String>, sep: &str) -> (r: String)
    ensures
        r@ == join_spec(list@.map_values(|s: String| s@), sep@),
{
    let ghost l = list@.map_values(|s: String| s@);
    let mut r = String::new();
    let mut i: usize = 0;
    while i < list.len()
        invariant
            i <= list.len(),
            l == list@.map_values(|s: String| s@),
            r@ == join_spec(l.take(i as int), sep@),
        decreases list.len() - i,
    {
        if i > 0 {
            r.append(sep);
        }
        r.append(list[i].as_str());
        proof {
            let t = l.take(i + 1);
            assert(t.drop_last() == l.take(i as int));
            assert(t.last() == list@[i as int]@);
            if i == 0 {
                assert(t.len() == 1);
            }
        }
        i = i + 1;
    }
    assert(l.take(list.len() as int) == l);
    r
}

/// The message of a route that `machines` refused: its warnings joined by
/// `; `, or, where that is empty, that there is no route to `name`.
pub open spec fn refused_route_message(route_warnings: Option<Seq<Seq<char>>>, name: Seq<char>) -> Seq<char> {
    let joined = match route_warnings {
        Some(w) => join_spec(w, "; "@),
        None => Seq::empty(),
    };
    if joined.len() == 0 {
        "No Open Machines route for "@ + name
    } else {
        joined
    }
}

/// The message of a route to the local machine.
pub open spec fn local_route_message() -> Seq<char> {
    "Local Open Machines entries use the local filesystem"@
}

/// The SSH target of a route: its command target, else its target.
pub open spec fn route_target_spec(command_target: Option<Seq<char>>, target: Option<Seq<char>>) -> Option<Seq<char>> {
    match command_target {
        Some(t) => Some(t),
        None => target,
    }
}

/// Where the SSH connection of `route` to the machine `name` goes, or why there is none.
pub fn route_ssh_target(route: &Route, name: &str) -> (r: Result<(String, String, u16), MachineError>)
    ensures
        !route.ok ==> (r matches Err(e) && e.kind == ErrorKind::NotFound && e.message@
            == refused_route_message(
            match route.warnings {
                Some(w) => Some(w@.map_values(|s: String| s@)),
                None => None,
            },
            name@,
        )),
        route.ok && (route.local || route.route@ == "local"@) ==> (r matches Err(e) && e.kind
            == ErrorKind::Unsupported && e.message@ == local_route_message()),
        route.ok && !(route.local || route.route@ == "local"@) ==> match route_target_spec(
            opt_chars(route.command_target),
            opt_chars(route.target),
        ) {
            None => r matches Err(e) && e.kind == ErrorKind::NotFound && e.message@
                == "No SSH target for "@ + name@,
            Some(t) => matches_ssh_target(r, ssh_target_spec(t)),
        },
{
    if !route.ok {
        let joined = match &route.warnings {
            Some(w) => join(w, "; "),
            None => String::new(),
        };
        let message = if joined.as_str().is_empty() {
            let mut m = String::from_str("No Open Machines route for ");
            m.append(name);
            m
        } else {
            joined
        };
        return Err(MachineError::new(ErrorKind::NotFound, message));
    }
    let local_name = String::from_str("local");
    if route.local || route.route == local_name {
        return Err(
            MachineError::new(
                ErrorKind::Unsupported,
                String::from_str("Local Open Machines entries use the local filesystem"),
            ),
        );
    }
    let target = match &route.command_target {
        Some(t) => t,
        None => match &route.target {
            Some(t) => t,
            None => {
                let mut m = String::from_str("No SSH target for ");
                m.append(name);
                return Err(MachineError::new(ErrorKind::NotFound, m));
            },
        },
    };
    parse_ssh_target(target.as_str())
}

/// The message of a failed `machines` command: its error output trimmed,
/// or, where that is empty, the status it exited with.
pub open spec fn command_failure_spec(stderr: Seq<char>, status: Seq<char>) -> Seq<char> {
    if trim(stderr).len() > 0 {
        trim(stderr)
    } else {
        "Open Machines command exited with "@ + status
    }
}

/// The message of a failed `machines` command that wrote `stderr` and exited with `status`.
pub fn command_failure_message(stderr: &str, status: &str) -> (r: String)
    ensures
        r@ == command_failure_spec(stderr@, status@),
{
    let t = trim_str(stderr);
    if t.as_str().is_empty() {
        let mut m = String::from_str("Open Machines command exited with ");
        m.append(status);
        m
    } else {
        t
    }
}

} // verus!
