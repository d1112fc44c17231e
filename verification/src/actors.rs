use vstd::prelude::*;

use crate::cache::{matches_target, target_for_cached, target_spec, MachineCache};
use crate::error::MachineError;
use crate::url::{
    entry_slug_from_url, entry_slug_spec, is_root_url, is_root_view, join_path,
    SchemeView, UrlBuf, UrlView,
};

verus! {

/// The configuration of the machine layer.
#[derive(Debug)]
pub struct OpenYasa {
    /// Whether a start without a path opens the machine chooser.
    pub machines_layer: bool,
}

impl Default for OpenYasa {
    /// The machine chooser is on.
    fn default() -> (c: OpenYasa)
        ensures
            c.machines_layer,
    {
        OpenYasa { machines_layer: true }
    }
}

/// What a tab does at start-up.
#[derive(Debug)]
pub enum TabAction {
    /// Change to the directory.
    Cd(UrlBuf),
    /// Change to the file's directory and hover the file.
    Reveal(UrlBuf),
}

/// What one tab does at start-up.
#[derive(Debug)]
pub struct TabStep {
    pub tab: usize,
    pub action: TabAction,
}

/// What start-up does.
#[derive(Debug)]
pub enum BootstrapPlan {
    /// Open the machine chooser in the first tab.
    MachineRoot,
    /// Open `count` tabs and run the steps in order.
    Tabs { count: usize, steps: Vec<TabStep> },
}

/// What start-up is told: whether paths, a cwd file or a chooser file were
/// given, whether the machine layer is on, and the directory and file name
/// of each path to open.
#[derive(Debug)]
pub struct BootstrapInput {
    pub has_entries: bool,
    pub has_cwd_file: bool,
    pub has_chooser_file: bool,
    pub machines_layer: bool,
    pub cwds: Vec<UrlBuf>,
    pub files: Vec<String>,
}

/// Starts the file manager.
pub struct Bootstrap;

/// Whether start-up opens the machine chooser: nothing to open was given and the layer is on.
pub open spec fn opens_machine_root(input: BootstrapInput) -> bool {
    !input.has_entries && !input.has_cwd_file && !input.has_chooser_file && input.machines_layer
}

/// Whether `step` opens, in tab `i`, the path given as directory `cwd` and file `file`.
pub open spec fn is_tab_step(step: TabStep, i: int, cwd: UrlView, file: Seq<char>) -> bool {
    &&& step.tab == i
    &&& if file.len() == 0 {
        step.action matches TabAction::Cd(u) && u@ == cwd
    } else {
        step.action matches TabAction::Reveal(u) && u@ == (UrlView {
            scheme: cwd.scheme,
            path: join_path(cwd.path, file),
        })
    }
}

impl Bootstrap {
    /// What start-up does: the machine chooser where nothing was given and
    /// the layer is on; else a tab for each given path, set up from the last
    /// to the first.
    pub fn act(input: &BootstrapInput) -> (plan: BootstrapPlan)
        requires
            !opens_machine_root(*input) ==> input.cwds.len() >= input.files.len(),
        ensures
            opens_machine_root(*input) ==> plan is MachineRoot,
            !opens_machine_root(*input) ==> (plan matches BootstrapPlan::Tabs { count, steps } && {
                let n = input.files.len() as int;
                &&& count == n
                &&& steps.len() == n
                &&& forall|j: int|
                    0 <= j < n ==> is_tab_step(
                        #[trigger] steps@[j],
                        n - 1 - j,
                        input.cwds@[n - 1 - j]@,
                        input.files@[n - 1 - j]@,
                    )
            }),
    {
        if !input.has_entries && !input.has_cwd_file && !input.has_chooser_file
            && input.machines_layer {
            return BootstrapPlan::MachineRoot;
        }
        let n = input.files.len();
        let mut steps: Vec<TabStep> = Vec::new();
        let mut i: usize = n;
        while i > 0
            invariant
                i <= n == input.files.len() <= input.cwds.len(),
                steps.len() == n - i,
                forall|j: int|
                    0 <= j < n - i ==> is_tab_step(
                        #[trigger] steps@[j],
                        n - 1 - j,
                        input.cwds@[n - 1 - j]@,
                        input.files@[n - 1 - j]@,
                    ),
            decreases i,
        {
            i = i - 1;
            let file = &input.files[i];
            let action = if file.as_str().is_empty() {
                TabAction::Cd(input.cwds[i].duplicate())
            } else {
                TabAction::Reveal(input.cwds[i].join(file.as_str()))
            };
            steps.push(TabStep { tab: i, action });
        }
        BootstrapPlan::Tabs { count: n, steps }
    }
}

/// The entry under the cursor: its URL and whether it is a directory.
#[derive(Debug)]
pub struct Hovered {
    pub url: UrlBuf,
    pub is_dir: bool,
}

/// What entering does.
#[derive(Debug)]
pub enum EnterAction {
    /// Nothing.
    Stay,
    /// Change to the directory.
    Cd(UrlBuf),
}

/// Enters the hovered directory or machine.
pub struct Enter;

/// Where entering the hovered directory leads outside the machines directory:
/// into the directory, a search result into its local directory.
pub open spec fn enter_directory_spec(h: UrlView) -> UrlView {
    if h.scheme is Search {
        UrlView { scheme: SchemeView::Regular, path: h.path }
    } else {
        h
    }
}

impl Enter {
    /// What entering does in the directory `cwd` with `hovered` under the
    /// cursor: in the machines directory, entering a machine's entry leads to
    /// that machine's target; elsewhere, entering a directory leads into it.
    pub fn act(cwd: &UrlBuf, hovered: Option<&Hovered>, cache: &MachineCache) -> (r: Result<
        EnterAction,
        MachineError,
    >)
        ensures
            is_root_view(cwd@) ==> match hovered {
                None => r matches Ok(EnterAction::Stay),
                Some(h) => match entry_slug_spec(h.url@) {
                    None => r matches Ok(EnterAction::Stay),
                    Some(slug) => if cache@.contains_key(slug) {
                        match r {
                            Ok(EnterAction::Cd(u)) => matches_target(Ok(u), target_spec(cache@[slug])),
                            Ok(EnterAction::Stay) => false,
                            Err(e) => matches_target(Err(e), target_spec(cache@[slug])),
                        }
                    } else {
                        r matches Err(e) && e.kind == crate::error::ErrorKind::NotFound
                            && e.message@ == "Unknown machine: "@ + slug
                    },
                },
            },
            !is_root_view(cwd@) ==> match hovered {
                Some(h) => if h.is_dir {
                    r matches Ok(EnterAction::Cd(u)) && u@ == enter_directory_spec(h.url@)
                } else {
                    r matches Ok(EnterAction::Stay)
                },
                None => r matches Ok(EnterAction::Stay),
            },
    {
        if is_root_url(cwd) {
            let h = match hovered {
                Some(h) => h,
                None => return Ok(EnterAction::Stay),
            };
            let slug = match entry_slug_from_url(&h.url) {
                Some(s) => s,
                None => return Ok(EnterAction::Stay),
            };
            return match target_for_cached(cache, slug.as_str()) {
                Ok(u) => Ok(EnterAction::Cd(u)),
                Err(e) => Err(e),
            };
        }
        match hovered {
            Some(h) => if h.is_dir {
                let url = if h.url.is_search() {
                    h.url.to_regular()
                } else {
                    h.url.duplicate()
                };
                Ok(EnterAction::Cd(url))
            } else {
                Ok(EnterAction::Stay)
            },
            None => Ok(EnterAction::Stay),
        }
    }
}

/// Links the yanked files into the current directory.
pub struct Link;

impl Link {
    /// Whether linking the yanked files into `cwd` goes ahead: not in the
    /// machines directory, and not for files that were cut.
    pub fn act(cwd: &UrlBuf, yanked_cut: bool) -> (b: bool)
        ensures
            b == (!is_root_view(cwd@) && !yanked_cut),
    {
        !is_root_url(cwd) && !yanked_cut
    }
}

} // verus!
