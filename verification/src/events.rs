//! What the background listeners report to the shell's event loop: the clock
//! tick, notifications, and the workspaces Hyprland keeps.

use vstd::prelude::*;

verus! {

#[verifier::external_type_specification]
#[verifier::external_body]
pub struct ExWorkspaceType(hyprland::shared::WorkspaceType);

/// One workspace as the bar shows it.
#[derive(Debug, Clone)]
pub struct WorkspaceInfo {
    pub id: i32,
    pub name: String,
    pub active: bool,
}

/// A notification arriving or leaving.
#[derive(Debug)]
pub enum NotificationEvent {
    New {
        id: u32,
        app_name: String,
        app_icon: String,
        summary: String,
        body: String,
        actions: Vec<String>,
        timeout_ms: i32,
    },
    Close(u32),
}

/// A workspace Hyprland added, deleted or switched to.
#[derive(Debug)]
pub enum WorkspaceEvent {
    Added { name: hyprland::shared::WorkspaceType, id: i32 },
    Deleted { name: hyprland::shared::WorkspaceType, id: i32 },
    Changed { name: hyprland::shared::WorkspaceType, id: i32 },
}

/// What the shell's event loop is sent.
#[derive(Debug)]
pub enum ShellEvent {
    /// A wall-clock second boundary passed.
    Tick,
    Notification(NotificationEvent),
    Workspace(WorkspaceEvent),
}

/// A workspace as Hyprland's `workspaces` request lists it, as far as the
/// bar reads it.
#[derive(Debug, Clone)]
pub struct HyprWorkspace {
    pub id: i32,
    pub name: String,
}

/// The names of `workspaces`, in order.
pub fn workspace_names(workspaces: &Vec<HyprWorkspace>) -> (r: Vec<String>)
    ensures
        r@.len() == workspaces@.len(),
        forall|i: int| 0 <= i < r@.len() ==> r@[i]@ == workspaces@[i].name@,
{
    let mut out: Vec<String> = Vec::new();
    let mut i: usize = 0;
    while i < workspaces.len()
        invariant
            i <= workspaces@.len(),
            out@.len() == i,
            forall|j: int| 0 <= j < i ==> out@[j]@ == workspaces@[j].name@,
        decreases workspaces@.len() - i,
    {
        out.push(workspaces[i].name.clone());
        i = i + 1;
    }
    out
}

/// The bar's view of `workspaces`, the one with id `active_id` marked
/// active.
pub fn workspace_infos(workspaces: &Vec<HyprWorkspace>, active_id: Option<i32>) -> (r: Vec<
    WorkspaceInfo,
>)
    ensures
        r@.len() == workspaces@.len(),
        forall|i: int|
            0 <= i < r@.len() ==> {
                &&& r@[i].id == workspaces@[i].id
                &&& r@[i].name@ == workspaces@[i].name@
                &&& r@[i].active == (active_id == Some(workspaces@[i].id))
            },
{
    let mut out: Vec<WorkspaceInfo> = Vec::new();
    let mut i: usize = 0;
    while i < workspaces.len()
        invariant
            i <= workspaces@.len(),
            out@.len() == i,
            forall|j: int|
                0 <= j < i ==> {
                    &&& out@[j].id == workspaces@[j].id
                    &&& out@[j].name@ == workspaces@[j].name@
                    &&& out@[j].active == (active_id == Some(workspaces@[j].id))
                },
        decreases workspaces@.len() - i,
    {
        let w = &workspaces[i];
        let active = match active_id {
            Some(id) => id == w.id,
            None => false,
        };
        out.push(WorkspaceInfo { id: w.id, name: w.name.clone(), active });
        i = i + 1;
    }
    out
}

/// The id of the first of `workspaces` named `name`.
pub fn workspace_id(workspaces: &Vec<HyprWorkspace>, name: &str) -> (r: Option<i32>)
    ensures
        match r {
            Some(id) => exists|i: int|
                0 <= i < workspaces@.len() && workspaces@[i].name@ == name@ && workspaces@[i].id == id
                    && forall|j: int| 0 <= j < i ==> workspaces@[j].name@ != name@,
            None => forall|i: int| 0 <= i < workspaces@.len() ==> workspaces@[i].name@ != name@,
        },
{
    let mut i: usize = 0;
    while i < workspaces.len()
        invariant
            i <= workspaces@.len(),
            forall|j: int| 0 <= j < i ==> workspaces@[j].name@ != name@,
        decreases workspaces@.len() - i,
    {
        if crate::text::str_eq(workspaces[i].name.as_str(), name) {
            return Some(workspaces[i].id);
        }
        i = i + 1;
    }
    None
}

} // verus!
