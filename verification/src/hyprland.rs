//! Hyprland's IPC: the requests sent on its command socket, the records its
//! JSON replies hold and how they become the shell's compositor state, and
//! what each line of its event socket asks to be fetched again.

use vstd::prelude::*;

use crate::compositor::{self, by_position, sort_by_position, CompositorEvent};
use crate::manifest::{join_path, joined};
use crate::text::{lemma_first_occurrence_is, occurs_at, lex_lt, split_once, split_once_spec, str_eq, str_lt, lemma_lex_lt_irreflexive, lemma_lex_lt_trans};

verus! {

/// How a request asks to be answered: as JSON, and after a refresh.
#[derive(Clone, Copy, Debug, PartialEq, Eq, Structural)]
pub struct CommandFlags {
    pub json: bool,
    pub refresh: bool,
}

impl CommandFlags {
    /// No flag.
    pub fn empty() -> (r: CommandFlags)
        ensures
            !r.json && !r.refresh,
    {
        CommandFlags { json: false, refresh: false }
    }

    /// The answer as JSON.
    pub fn json() -> (r: CommandFlags)
        ensures
            r.json && !r.refresh,
    {
        CommandFlags { json: true, refresh: false }
    }
}

/// A request on Hyprland's command socket.
pub struct Command {
    pub command: String,
    pub flags: CommandFlags,
}

/// What goes on the socket for a request: `j` when it asks for JSON, `r`
/// when it asks for a refresh, then `/` and the command.
pub open spec fn command_text(command: Seq<char>, flags: CommandFlags) -> Seq<char> {
    (if flags.json {
        seq!['j']
    } else {
        Seq::<char>::empty()
    }) + (if flags.refresh {
        seq!['r']
    } else {
        Seq::<char>::empty()
    }) + seq!['/'] + command
}

impl Command {
    /// What goes on the socket for this request.
    pub fn to_string(&self) -> (r: String)
        ensures
            r@ == command_text(self.command@, self.flags),
    {
        let mut out = String::new();
        if self.flags.json {
            out.append("j");
        }
        if self.flags.refresh {
            out.append("r");
        }
        out.append("/");
        out.append(self.command.as_str());
        proof {
            reveal_strlit("j");
            reveal_strlit("r");
            reveal_strlit("/");
            assert(out@ =~= command_text(self.command@, self.flags));
        }
        out
    }
}

/// `prefix`, then `s`, then `suffix`.
pub open spec fn framed(prefix: Seq<char>, s: Seq<char>, suffix: Seq<char>) -> Seq<char> {
    prefix + s + suffix
}

fn concat3(prefix: &str, s: &str, suffix: &str) -> (r: String)
    ensures
        r@ == framed(prefix@, s@, suffix@),
{
    let mut out = String::from_str(prefix);
    out.append(s);
    out.append(suffix);
    out
}

/// Hyprland's command socket, where requests are sent.
pub struct Ipc {
    pub cmd_socket: String,
}

/// A dispatch call Hyprland answered with something other than `ok`.
#[derive(Debug)]
pub struct DispatchFailed {
    pub reply: String,
}

impl Ipc {
    /// The request that evaluates `lua`.
    pub fn eval_command(lua: &str) -> (r: Command)
        ensures
            r.command@ == "eval "@ + lua@,
            !r.flags.json && !r.flags.refresh,
    {
        let command = concat3("eval ", lua, "");
        proof {
            reveal_strlit("");
        }
        assert(command@ =~= "eval "@ + lua@);
        Command { command, flags: CommandFlags::empty() }
    }

    /// The Lua that runs the dispatcher `call`.
    pub fn dsp_call(call: &str) -> (r: String)
        ensures
            r@ == "hl.dispatch(hl.dsp."@ + call@ + ")"@,
    {
        concat3("hl.dispatch(hl.dsp.", call, ")")
    }

    /// What a dispatch call's reply means: `ok` is success, anything else
    /// is the failure Hyprland reports.
    pub fn dsp_reply(reply: &str) -> (r: Result<(), DispatchFailed>)
        ensures
            match r {
                Ok(()) => reply@ == "ok"@,
                Err(e) => reply@ != "ok"@ && e.reply@ == reply@,
            },
    {
        if str_eq(reply, "ok") {
            Ok(())
        } else {
            Err(DispatchFailed { reply: String::from_str(reply) })
        }
    }

    /// The request for `what`, answered as JSON.
    pub fn data_command(what: &str) -> (r: Command)
        ensures
            r.command@ == what@,
            r.flags.json && !r.flags.refresh,
    {
        Command { command: String::from_str(what), flags: CommandFlags::json() }
    }

    /// The dispatcher call that focuses `workspace`.
    pub fn focus_workspace_call(workspace: &str) -> (r: String)
        ensures
            r@ == "focus({ workspace = "@ + workspace@ + " })"@,
    {
        concat3("focus({ workspace = ", workspace, " })")
    }
}

/// The command socket and the event socket in Hyprland's socket directory.
pub fn socket_paths(socket_dir: &str) -> (r: (String, String))
    ensures
        r.0@ == joined(socket_dir@, ".socket.sock"@),
        r.1@ == joined(socket_dir@, ".socket2.sock"@),
{
    (join_path(socket_dir, ".socket.sock"), join_path(socket_dir, ".socket2.sock"))
}

/// A workspace as Hyprland's JSON names it.
pub struct WorkspaceInfo {
    pub address: String,
    pub name: String,
}

/// A monitor as Hyprland's JSON describes it. The refresh rate and the scale
/// are kept as the bit patterns of their `f32` values.
pub struct Monitor {
    pub id: u32,
    pub name: String,
    pub width: u32,
    pub height: u32,
    pub refresh_rate: u32,
    pub x: i32,
    pub y: i32,
    pub special_workspace: WorkspaceInfo,
    pub active_workspace: WorkspaceInfo,
    pub scale: u32,
    pub focused: bool,
    pub disabled: bool,
    pub mirror_of: String,
}

/// A workspace as Hyprland's JSON describes it.
pub struct Workspace {
    pub address: String,
    pub workspace_type: String,
    pub name: String,
    pub monitor: String,
    pub monitor_id: u32,
}

/// The shell's view of a Hyprland workspace: known by its address.
pub open spec fn workspace_view(w: Workspace) -> compositor::Workspace {
    compositor::Workspace { id: w.address, name: w.name, monitor: w.monitor, monitor_id: w.monitor_id }
}

/// The shell's view of a Hyprland monitor. Its special workspace is a
/// scratchpad only when it has an address, and `disabled` is read inverted,
/// as Hyprland's JSON reports it the wrong way round.
pub open spec fn monitor_view(m: Monitor) -> compositor::Monitor {
    compositor::Monitor {
        id: m.id,
        name: m.name,
        width: m.width,
        height: m.height,
        refresh_rate: m.refresh_rate,
        x: m.x,
        y: m.y,
        active_scratchpad: if m.special_workspace.address@.len() > 0 {
            Some(
                compositor::Workspace {
                    id: m.special_workspace.address,
                    name: m.special_workspace.name,
                    monitor: m.name,
                    monitor_id: m.id,
                },
            )
        } else {
            None
        },
        active_workspace: compositor::Workspace {
            id: m.active_workspace.address,
            name: m.active_workspace.name,
            monitor: m.name,
            monitor_id: m.id,
        },
        scale: m.scale,
        focused: m.focused,
        disabled: !m.disabled,
        mirror_of: m.mirror_of,
    }
}

impl Workspace {
    /// The shell's view of this workspace.
    pub fn into_compositor(self) -> (r: compositor::Workspace)
        ensures
            r == workspace_view(self),
    {
        compositor::Workspace {
            id: self.address,
            name: self.name,
            monitor: self.monitor,
            monitor_id: self.monitor_id,
        }
    }
}

impl Monitor {
    /// The shell's view of this monitor.
    pub fn into_compositor(self) -> (r: compositor::Monitor)
        ensures
            r == monitor_view(self),
            r.id == self.id,
            r.name == self.name,
            r.width == self.width,
            r.height == self.height,
            r.refresh_rate == self.refresh_rate,
            r.x == self.x,
            r.y == self.y,
            r.scale == self.scale,
            r.focused == self.focused,
            r.disabled == !self.disabled,
            r.mirror_of == self.mirror_of,
    {
        let m = self;
        let active_scratchpad = if m.special_workspace.address.as_str().unicode_len() > 0 {
            Some(
                compositor::Workspace {
                    id: m.special_workspace.address,
                    name: m.special_workspace.name,
                    monitor: m.name.clone(),
                    monitor_id: m.id,
                },
            )
        } else {
            None
        };
        compositor::Monitor {
            id: m.id,
            name: m.name.clone(),
            width: m.width,
            height: m.height,
            refresh_rate: m.refresh_rate,
            x: m.x,
            y: m.y,
            active_scratchpad,
            active_workspace: compositor::Workspace {
                id: m.active_workspace.address,
                name: m.active_workspace.name,
                monitor: m.name,
                monitor_id: m.id,
            },
            scale: m.scale,
            focused: m.focused,
            disabled: !m.disabled,
            mirror_of: m.mirror_of,
        }
    }
}

/// The shell's monitor keeps what Hyprland reports of it: its id, name,
/// size, refresh rate, position, scale, focus and mirror, with `disabled`
/// read the right way round; its active workspace and its scratchpad (when
/// the special workspace has an address) are the ones Hyprland names, on
/// this monitor.
pub proof fn lemma_monitor_keeps_what_hyprland_reports(m: Monitor)
    ensures
        monitor_view(m).id == m.id,
        monitor_view(m).name == m.name,
        monitor_view(m).width == m.width,
        monitor_view(m).height == m.height,
        monitor_view(m).refresh_rate == m.refresh_rate,
        monitor_view(m).x == m.x,
        monitor_view(m).y == m.y,
        monitor_view(m).scale == m.scale,
        monitor_view(m).focused == m.focused,
        monitor_view(m).disabled == !m.disabled,
        monitor_view(m).mirror_of == m.mirror_of,
        monitor_view(m).active_workspace.id == m.active_workspace.address,
        monitor_view(m).active_workspace.name == m.active_workspace.name,
        monitor_view(m).active_workspace.monitor == m.name,
        monitor_view(m).active_workspace.monitor_id == m.id,
        m.special_workspace.address@.len() == 0 <==> monitor_view(m).active_scratchpad is None,
        monitor_view(m).active_scratchpad matches Some(w) ==> w.id == m.special_workspace.address
            && w.name == m.special_workspace.name && w.monitor == m.name && w.monitor_id == m.id,
{
}

/// Every monitor `monitors_from` gives is one Hyprland reported, with the
/// same id, name, size and position, and `disabled` read the right way
/// round; and as many come out as went in.
pub proof fn lemma_monitors_from_keeps_each_monitor(
    reply: Seq<Monitor>,
    out: Seq<compositor::Monitor>,
)
    requires
        out.to_multiset() == reply.map_values(|m: Monitor| monitor_view(m)).to_multiset(),
    ensures
        out.len() == reply.len(),
        forall|i: int|
            #![trigger out[i]]
            0 <= i < out.len() ==> exists|j: int|
                #![trigger reply[j]]
                0 <= j < reply.len() && out[i].id == reply[j].id && out[i].name == reply[j].name
                    && out[i].width == reply[j].width && out[i].height == reply[j].height
                    && out[i].x == reply[j].x && out[i].y == reply[j].y && out[i].disabled
                    == !reply[j].disabled,
{
    broadcast use vstd::seq_lib::group_to_multiset_ensures;

    let mapped = reply.map_values(|m: Monitor| monitor_view(m));
    assert(out.to_multiset().len() == out.len());
    assert(mapped.to_multiset().len() == mapped.len());
    assert forall|i: int| #![trigger out[i]] 0 <= i < out.len() implies exists|j: int|
        #![trigger reply[j]]
        0 <= j < reply.len() && out[i].id == reply[j].id && out[i].name == reply[j].name
            && out[i].width == reply[j].width && out[i].height == reply[j].height && out[i].x
            == reply[j].x && out[i].y == reply[j].y && out[i].disabled == !reply[j].disabled by {
        assert(out.contains(out[i]));
        assert(out.to_multiset().count(out[i]) > 0);
        assert(mapped.contains(out[i]));
        let j = choose|j: int| 0 <= j < mapped.len() && mapped[j] == out[i];
        lemma_monitor_keeps_what_hyprland_reports(reply[j]);
    }
}

/// The shell's monitors from the `monitors all` reply, left to right, then
/// top to bottom.
pub fn monitors_from(monitors: Vec<Monitor>) -> (r: Vec<compositor::Monitor>)
    ensures
        by_position(r@),
        r@.to_multiset() == monitors@.map_values(|m: Monitor| monitor_view(m)).to_multiset(),
{
    let ghost all = monitors@;
    let mut rest = monitors;
    let mut converted: Vec<compositor::Monitor> = Vec::new();
    proof {
        assert(converted@.to_multiset() =~= vstd::multiset::Multiset::<compositor::Monitor>::empty()) by {
            broadcast use vstd::multiset::group_multiset_axioms, vstd::seq_lib::group_to_multiset_ensures;

            assert(converted@.to_multiset().len() == 0);
        }
    }
    while rest.len() > 0
        invariant
            converted@.to_multiset().add(rest@.map_values(|m: Monitor| monitor_view(m)).to_multiset())
                == all.map_values(|m: Monitor| monitor_view(m)).to_multiset(),
        decreases rest@.len(),
    {
        let ghost before_rest = rest@;
        let ghost before = converted@;
        let m = rest.pop().unwrap();
        let c = m.into_compositor();
        converted.push(c);
        proof {
            assert(before_rest.map_values(|m: Monitor| monitor_view(m)) =~= rest@.map_values(
                |m: Monitor| monitor_view(m),
            ).push(c));
            vstd::seq_lib::to_multiset_build(rest@.map_values(|m: Monitor| monitor_view(m)), c);
            vstd::seq_lib::to_multiset_build(before, c);
            assert(converted@.to_multiset().add(
                rest@.map_values(|m: Monitor| monitor_view(m)).to_multiset(),
            ) =~= before.to_multiset().add(
                before_rest.map_values(|m: Monitor| monitor_view(m)).to_multiset(),
            )) by {
                broadcast use vstd::multiset::group_multiset_axioms;
            }
        }
    }
    proof {
        assert(rest@.map_values(|m: Monitor| monitor_view(m)).to_multiset()
            =~= vstd::multiset::Multiset::<compositor::Monitor>::empty()) by {
            broadcast use vstd::multiset::group_multiset_axioms, vstd::seq_lib::group_to_multiset_ensures;

            assert(rest@.map_values(|m: Monitor| monitor_view(m)).to_multiset().len() == 0);
        }
        assert(converted@.to_multiset().add(
            rest@.map_values(|m: Monitor| monitor_view(m)).to_multiset(),
        ) =~= converted@.to_multiset()) by {
            broadcast use vstd::multiset::group_multiset_axioms;
        }
    }
    sort_by_position(converted)
}

/// The workspaces a `workspaces` reply lists that the shell shows: all but
/// the special ones, in their order.
pub open spec fn shown_workspaces(s: Seq<Workspace>) -> Seq<compositor::Workspace>
    decreases s.len(),
{
    if s.len() == 0 {
        Seq::empty()
    } else if s.last().workspace_type@ == "special"@ {
        shown_workspaces(s.drop_last())
    } else {
        shown_workspaces(s.drop_last()).push(workspace_view(s.last()))
    }
}

/// `s` runs by ascending id, as strings order.
pub open spec fn by_id(s: Seq<compositor::Workspace>) -> bool {
    forall|i: int, j: int| 0 <= i < j < s.len() ==> !lex_lt(s[j].id@, s[i].id@)
}

/// Sorts workspaces by id.
pub fn sort_by_id(workspaces: Vec<compositor::Workspace>) -> (r: Vec<compositor::Workspace>)
    ensures
        by_id(r@),
        r@.to_multiset() == workspaces@.to_multiset(),
{
    let mut rest = workspaces;
    let mut out: Vec<compositor::Workspace> = Vec::new();
    proof {
        assert(out@.to_multiset() =~= vstd::multiset::Multiset::<compositor::Workspace>::empty()) by {
            broadcast use vstd::multiset::group_multiset_axioms, vstd::seq_lib::group_to_multiset_ensures;

            assert(out@.to_multiset().len() == 0);
        }
    }
    while rest.len() > 0
        invariant
            by_id(out@),
            out@.to_multiset().add(rest@.to_multiset()) == workspaces@.to_multiset(),
        decreases rest@.len(),
    {
        let ghost before_rest = rest@;
        let w = rest.pop().unwrap();
        assert(before_rest =~= rest@.push(w));
        let mut p: usize = 0;
        while p < out.len() && !str_lt(w.id.as_str(), out[p].id.as_str())
            invariant
                p <= out@.len(),
                forall|a: int| 0 <= a < p ==> !lex_lt(w.id@, #[trigger] out@[a].id@),
            decreases out@.len() - p,
        {
            p = p + 1;
        }
        let ghost before = out@;
        let ghost wid = w.id@;
        out.insert(p, w);
        proof {
            assert forall|a: int, b: int| 0 <= a < b < out@.len() implies !lex_lt(
                out@[b].id@,
                out@[a].id@,
            ) by {
                if a < p && b > p {
                    assert(out@[b] == before[b - 1]);
                } else if a == p && b > p {
                    assert(out@[b] == before[b - 1]);
                    assert(lex_lt(wid, before[p as int].id@));
                    if lex_lt(before[b - 1].id@, wid) {
                        lemma_lex_lt_trans(before[b - 1].id@, wid, before[p as int].id@);
                        if b - 1 == p {
                            lemma_lex_lt_irreflexive(before[p as int].id@);
                        }
                    }
                } else if a > p {
                    assert(out@[a] == before[a - 1]);
                    assert(out@[b] == before[b - 1]);
                }
            }
            vstd::seq_lib::to_multiset_insert(before, p as int, w);
            assert(out@ == before.insert(p as int, w));
            vstd::seq_lib::to_multiset_build(rest@, w);
            assert(out@.to_multiset().add(rest@.to_multiset()) =~= before.to_multiset().add(
                before_rest.to_multiset(),
            )) by {
                broadcast use vstd::multiset::group_multiset_axioms;
            }
        }
    }
    proof {
        assert(rest@.to_multiset() =~= vstd::multiset::Multiset::<compositor::Workspace>::empty()) by {
            broadcast use vstd::multiset::group_multiset_axioms, vstd::seq_lib::group_to_multiset_ensures;

            assert(rest@.to_multiset().len() == 0);
        }
        assert(out@.to_multiset().add(rest@.to_multiset()) =~= out@.to_multiset()) by {
            broadcast use vstd::multiset::group_multiset_axioms;
        }
    }
    out
}

/// The shell's workspaces from the `workspaces` reply: all but the special
/// ones, by ascending id.
pub fn workspaces_from(workspaces: Vec<Workspace>) -> (r: Vec<compositor::Workspace>)
    ensures
        by_id(r@),
        r@.to_multiset() == shown_workspaces(workspaces@).to_multiset(),
{
    let ghost all = workspaces@;
    let mut rest = workspaces;
    let mut kept: Vec<compositor::Workspace> = Vec::new();
    proof {
        assert(kept@.to_multiset() =~= vstd::multiset::Multiset::<compositor::Workspace>::empty()) by {
            broadcast use vstd::multiset::group_multiset_axioms, vstd::seq_lib::group_to_multiset_ensures;

            assert(kept@.to_multiset().len() == 0);
        }
    }
    while rest.len() > 0
        invariant
            kept@.to_multiset().add(shown_workspaces(rest@).to_multiset()) == shown_workspaces(
                all,
            ).to_multiset(),
        decreases rest@.len(),
    {
        let ghost before_rest = rest@;
        let ghost before = kept@;
        let w = rest.pop().unwrap();
        assert(before_rest.drop_last() =~= rest@);
        if !str_eq(w.workspace_type.as_str(), "special") {
            let c = w.into_compositor();
            kept.push(c);
            proof {
                vstd::seq_lib::to_multiset_build(shown_workspaces(rest@), c);
                vstd::seq_lib::to_multiset_build(before, c);
                assert(kept@.to_multiset().add(shown_workspaces(rest@).to_multiset())
                    =~= before.to_multiset().add(shown_workspaces(before_rest).to_multiset())) by {
                    broadcast use vstd::multiset::group_multiset_axioms;
                }
            }
        }
    }
    proof {
        assert(shown_workspaces(rest@).to_multiset()
            =~= vstd::multiset::Multiset::<compositor::Workspace>::empty()) by {
            broadcast use vstd::multiset::group_multiset_axioms, vstd::seq_lib::group_to_multiset_ensures;

            assert(shown_workspaces(rest@).len() == 0);
            assert(shown_workspaces(rest@).to_multiset().len() == 0);
        }
        assert(kept@.to_multiset().add(shown_workspaces(rest@).to_multiset())
            =~= kept@.to_multiset()) by {
            broadcast use vstd::multiset::group_multiset_axioms;
        }
    }
    sort_by_id(kept)
}

/// The first monitor that has focus and is enabled.
pub open spec fn is_active_monitor(s: Seq<compositor::Monitor>, i: int) -> bool {
    &&& 0 <= i < s.len()
    &&& s[i].focused && !s[i].disabled
    &&& forall|j: int| 0 <= j < i ==> !(s[j].focused && !s[j].disabled)
}

/// No monitor has focus and is enabled.
#[derive(Debug)]
pub struct NoActiveMonitor;

/// The first of `monitors` that has focus and is enabled.
pub fn active_monitor(monitors: Vec<compositor::Monitor>) -> (r: Result<compositor::Monitor, NoActiveMonitor>)
    ensures
        match r {
            Ok(m) => exists|i: int| is_active_monitor(monitors@, i) && m == monitors@[i],
            Err(_) => forall|i: int| 0 <= i < monitors@.len() ==> !(monitors@[i].focused && !monitors@[i].disabled),
        },
{
    let ghost all = monitors@;
    let n = monitors.len();
    let mut rest = monitors;
    let mut i: usize = 0;
    while rest.len() > 0
        invariant
            all == monitors@,
            all.len() == n,
            i + rest@.len() == all.len(),
            rest@ == all.subrange(i as int, all.len() as int),
            forall|j: int| 0 <= j < i ==> !(all[j].focused && !all[j].disabled),
        decreases rest@.len(),
    {
        let m = rest.remove(0);
        assert(m == all[i as int]);
        if m.focused && !m.disabled {
            assert(is_active_monitor(all, i as int));
            return Ok(m);
        }
        assert(rest@ =~= all.subrange(i + 1, all.len() as int));
        i = i + 1;
    }
    Err(NoActiveMonitor)
}

/// What a line of the event socket asks to be fetched again.
#[derive(Debug)]
pub enum EventPlan {
    /// The workspaces and the active one.
    Workspaces,
    /// The windows and the active one.
    Windows,
    /// The active window.
    ActiveWindow,
    /// The monitor of this name, now focused.
    FocusedMonitor(String),
    /// The monitors.
    Monitors,
    /// The monitor of this name, whose special workspace changed.
    ActiveSpecial(String),
    /// Nothing: an event the shell does not follow.
    Ignored,
}

/// Why an event could not be followed.
#[derive(Debug, PartialEq, Eq, Structural)]
pub enum EventError {
    /// The line is not `NAME>>DATA`, or its data lacks a part it needs.
    InvalidFormat,
    /// No monitor has the name the event gave.
    MonitorNotFound,
}

/// An event that moves the workspaces.
pub open spec fn is_workspace_event(name: Seq<char>) -> bool {
    name == "workspace"@ || name == "createworkspace"@ || name == "destroyworkspace"@
        || name == "renameworkspace"@ || name == "moveworkspace"@
}

/// An event that moves the windows.
pub open spec fn is_window_event(name: Seq<char>) -> bool {
    name == "openwindow"@ || name == "closewindow"@ || name == "movewindow"@ || name == "kill"@
        || name == "windowtitle"@
}

/// `r` is what the event line `line` asks for.
pub open spec fn plans(line: Seq<char>, r: Result<EventPlan, EventError>) -> bool {
    match split_once_spec(line, ">>"@) {
        None => r == Err::<EventPlan, EventError>(EventError::InvalidFormat),
        Some((name, data)) => if is_workspace_event(name) {
            r matches Ok(EventPlan::Workspaces)
        } else if is_window_event(name) {
            r matches Ok(EventPlan::Windows)
        } else if name == "activewindow"@ {
            r matches Ok(EventPlan::ActiveWindow)
        } else if name == "focusedmon"@ {
            match split_once_spec(data, ","@) {
                None => r == Err::<EventPlan, EventError>(EventError::InvalidFormat),
                Some((monitor, _)) => r matches Ok(EventPlan::FocusedMonitor(m)) && m@ == monitor,
            }
        } else if name == "monitorremoved"@ || name == "monitoradded"@ {
            r matches Ok(EventPlan::Monitors)
        } else if name == "activespecial"@ {
            match split_once_spec(data, ">>"@) {
                None => r == Err::<EventPlan, EventError>(EventError::InvalidFormat),
                Some((_, monitor)) => r matches Ok(EventPlan::ActiveSpecial(m)) && m@ == monitor,
            }
        } else {
            r matches Ok(EventPlan::Ignored)
        },
    }
}

/// An event line `NAME>>DATA` is split at the first `>>` when its name has
/// no `>` in it.
proof fn lemma_split_at_name(name: Seq<char>, data: Seq<char>)
    requires
        forall|i: int| 0 <= i < name.len() ==> name[i] != '>',
    ensures
        split_once_spec(name + seq!['>', '>'] + data, seq!['>', '>']) == Some((name, data)),
{
    let s = name + seq!['>', '>'] + data;
    let pat = seq!['>', '>'];
    assert(s.subrange(name.len() as int, name.len() + 2int) =~= pat);
    assert forall|j: int| 0 <= j < name.len() implies !occurs_at(s, pat, j) by {
        if occurs_at(s, pat, j) {
            assert(s.subrange(j, j + 2)[0] == s[j]);
            assert(s[j] == name[j]);
        }
    }
    lemma_first_occurrence_is(s, pat, name.len() as int);
    assert(s.subrange(0, name.len() as int) =~= name);
    assert(s.subrange(name.len() + 2int, s.len() as int) =~= data);
}

/// An event line `NAME>>DATA` whose name has no `>` in it is split into
/// that name and that data.
proof fn lemma_line_splits(name: Seq<char>, data: Seq<char>)
    requires
        forall|i: int| 0 <= i < name.len() ==> name[i] != '>',
    ensures
        split_once_spec(name + ">>"@ + data, ">>"@) == Some((name, data)),
{
    reveal_strlit(">>");
    lemma_split_at_name(name, data);
    assert(">>"@ =~= seq!['>', '>']);
}

/// The workspace events (`workspace`, `createworkspace`, `destroyworkspace`,
/// `renameworkspace`, `moveworkspace`) ask for the workspaces again,
/// whatever data follows them.
pub proof fn lemma_workspace_events_refetch_workspaces(name: Seq<char>, data: Seq<char>, r: Result<EventPlan, EventError>)
    requires
        forall|i: int| 0 <= i < name.len() ==> name[i] != '>',
        plans(name + ">>"@ + data, r),
        name == "workspace"@ || name == "createworkspace"@ || name == "destroyworkspace"@ || name == "renameworkspace"@ || name == "moveworkspace"@,
    ensures
        r matches Ok(EventPlan::Workspaces),
{
    reveal_strlit("workspace");
    reveal_strlit("createworkspace");
    reveal_strlit("destroyworkspace");
    reveal_strlit("renameworkspace");
    reveal_strlit("moveworkspace");
    lemma_line_splits(name, data);
    assert(is_workspace_event(name));
}

/// The window events (`openwindow`, `closewindow`, `movewindow`, `kill`,
/// `windowtitle`) ask for the windows again, whatever data follows them.
pub proof fn lemma_window_events_refetch_windows(name: Seq<char>, data: Seq<char>, r: Result<EventPlan, EventError>)
    requires
        forall|i: int| 0 <= i < name.len() ==> name[i] != '>',
        plans(name + ">>"@ + data, r),
        name == "kill"@ || name == "windowtitle"@ || name == "closewindow"@ || name == "openwindow"@ || name == "movewindow"@,
    ensures
        r matches Ok(EventPlan::Windows),
{
    reveal_strlit("workspace");
    reveal_strlit("createworkspace");
    reveal_strlit("destroyworkspace");
    reveal_strlit("renameworkspace");
    reveal_strlit("moveworkspace");
    reveal_strlit("openwindow");
    reveal_strlit("closewindow");
    reveal_strlit("movewindow");
    reveal_strlit("kill");
    reveal_strlit("windowtitle");
    lemma_line_splits(name, data);
    assert(name.len() == 10 || name.len() == 11 || name.len() == 4);
    assert(!is_workspace_event(name));
    assert(is_window_event(name));
}

/// `activewindow` asks for the active window again, whatever data follows.
pub proof fn lemma_active_window_event_refetches_the_active_window(name: Seq<char>, data: Seq<char>, r: Result<EventPlan, EventError>)
    requires
        forall|i: int| 0 <= i < name.len() ==> name[i] != '>',
        plans(name + ">>"@ + data, r),
        name == "activewindow"@,
    ensures
        r matches Ok(EventPlan::ActiveWindow),
{
    reveal_strlit("workspace");
    reveal_strlit("createworkspace");
    reveal_strlit("destroyworkspace");
    reveal_strlit("renameworkspace");
    reveal_strlit("moveworkspace");
    reveal_strlit("openwindow");
    reveal_strlit("closewindow");
    reveal_strlit("movewindow");
    reveal_strlit("kill");
    reveal_strlit("windowtitle");
    reveal_strlit("activewindow");
    lemma_line_splits(name, data);
    assert(name.len() == 12 && name[0] == 'a');
    assert(!is_workspace_event(name));
    assert(!is_window_event(name));
}

/// `monitoradded` and `monitorremoved` ask for the monitors again,
/// whatever data follows them.
pub proof fn lemma_monitor_events_refetch_monitors(name: Seq<char>, data: Seq<char>, r: Result<EventPlan, EventError>)
    requires
        forall|i: int| 0 <= i < name.len() ==> name[i] != '>',
        plans(name + ">>"@ + data, r),
        name == "monitorremoved"@ || name == "monitoradded"@,
    ensures
        r matches Ok(EventPlan::Monitors),
{
    reveal_strlit("workspace");
    reveal_strlit("createworkspace");
    reveal_strlit("destroyworkspace");
    reveal_strlit("renameworkspace");
    reveal_strlit("moveworkspace");
    reveal_strlit("openwindow");
    reveal_strlit("closewindow");
    reveal_strlit("movewindow");
    reveal_strlit("kill");
    reveal_strlit("windowtitle");
    reveal_strlit("activewindow");
    reveal_strlit("focusedmon");
    reveal_strlit("monitorremoved");
    reveal_strlit("monitoradded");
    lemma_line_splits(name, data);
    assert((name.len() == 14 || name.len() == 12) && name[0] == 'm');
    assert(!is_workspace_event(name));
    assert(!is_window_event(name));
    assert(name != "activewindow"@);
    assert(name != "focusedmon"@);
}

/// `focusedmon` asks for the monitor named before the first `,` of its
/// data, and is malformed without one.
pub proof fn lemma_focused_monitor_event_names_its_monitor(name: Seq<char>, data: Seq<char>, r: Result<EventPlan, EventError>)
    requires
        forall|i: int| 0 <= i < name.len() ==> name[i] != '>',
        plans(name + ">>"@ + data, r),
        name == "focusedmon"@,
    ensures
        match split_once_spec(data, ","@) {
            Some((monitor, _)) => r matches Ok(EventPlan::FocusedMonitor(m)) && m@ == monitor,
            None => r == Err::<EventPlan, EventError>(EventError::InvalidFormat),
        },
{
    reveal_strlit("workspace");
    reveal_strlit("createworkspace");
    reveal_strlit("destroyworkspace");
    reveal_strlit("renameworkspace");
    reveal_strlit("moveworkspace");
    reveal_strlit("openwindow");
    reveal_strlit("closewindow");
    reveal_strlit("movewindow");
    reveal_strlit("kill");
    reveal_strlit("windowtitle");
    reveal_strlit("activewindow");
    reveal_strlit("focusedmon");
    lemma_line_splits(name, data);
    assert(name.len() == 10 && name[0] == 'f');
    assert(!is_workspace_event(name));
    assert(!is_window_event(name));
    assert(name != "activewindow"@);
}

/// `activespecial` asks for the monitor named after the first `>>` of its
/// data, and is malformed without one.
pub proof fn lemma_active_special_event_names_its_monitor(name: Seq<char>, data: Seq<char>, r: Result<EventPlan, EventError>)
    requires
        forall|i: int| 0 <= i < name.len() ==> name[i] != '>',
        plans(name + ">>"@ + data, r),
        name == "activespecial"@,
    ensures
        match split_once_spec(data, ">>"@) {
            Some((_, monitor)) => r matches Ok(EventPlan::ActiveSpecial(m)) && m@ == monitor,
            None => r == Err::<EventPlan, EventError>(EventError::InvalidFormat),
        },
{
    reveal_strlit("workspace");
    reveal_strlit("createworkspace");
    reveal_strlit("destroyworkspace");
    reveal_strlit("renameworkspace");
    reveal_strlit("moveworkspace");
    reveal_strlit("openwindow");
    reveal_strlit("closewindow");
    reveal_strlit("movewindow");
    reveal_strlit("kill");
    reveal_strlit("windowtitle");
    reveal_strlit("activewindow");
    reveal_strlit("focusedmon");
    reveal_strlit("monitorremoved");
    reveal_strlit("monitoradded");
    reveal_strlit("activespecial");
    lemma_line_splits(name, data);
    assert(name.len() == 13 && name[0] == 'a' && name[1] == 'c' && name[6] == 's');
    assert(!is_workspace_event(name));
    assert(!is_window_event(name));
    assert(name != "activewindow"@);
    assert(name != "focusedmon"@);
    assert(name != "monitorremoved"@ && name != "monitoradded"@);
}

/// Any other event name asks for nothing.
pub proof fn lemma_other_events_are_ignored(name: Seq<char>, data: Seq<char>, r: Result<EventPlan, EventError>)
    requires
        forall|i: int| 0 <= i < name.len() ==> name[i] != '>',
        plans(name + ">>"@ + data, r),
        !(name == "workspace"@ || name == "createworkspace"@ || name == "destroyworkspace"@ || name == "renameworkspace"@ || name == "moveworkspace"@ || name == "closewindow"@ || name == "openwindow"@ || name == "movewindow"@ || name == "kill"@ || name == "windowtitle"@ || name == "activewindow"@ || name == "focusedmon"@ || name == "monitorremoved"@ || name == "monitoradded"@ || name == "activespecial"@),
    ensures
        r matches Ok(EventPlan::Ignored),
{
    reveal_strlit("workspace");
    reveal_strlit("createworkspace");
    reveal_strlit("destroyworkspace");
    reveal_strlit("renameworkspace");
    reveal_strlit("moveworkspace");
    reveal_strlit("openwindow");
    reveal_strlit("closewindow");
    reveal_strlit("movewindow");
    reveal_strlit("kill");
    reveal_strlit("windowtitle");
    reveal_strlit("activewindow");
    reveal_strlit("focusedmon");
    reveal_strlit("monitorremoved");
    reveal_strlit("monitoradded");
    reveal_strlit("activespecial");
    lemma_line_splits(name, data);
}

/// What the event line `line` asks to be fetched again.
pub fn plan_event(line: &str) -> (r: Result<EventPlan, EventError>)
    ensures
        plans(line@, r),
{
    let (name, data) = match split_once(line, ">>") {
        Some(parts) => parts,
        None => return Err(EventError::InvalidFormat),
    };
    if str_eq(name, "workspace") || str_eq(name, "createworkspace") || str_eq(name, "destroyworkspace")
        || str_eq(name, "renameworkspace") || str_eq(name, "moveworkspace") {
        Ok(EventPlan::Workspaces)
    } else if str_eq(name, "openwindow") || str_eq(name, "closewindow") || str_eq(name, "movewindow")
        || str_eq(name, "kill") || str_eq(name, "windowtitle") {
        Ok(EventPlan::Windows)
    } else if str_eq(name, "activewindow") {
        Ok(EventPlan::ActiveWindow)
    } else if str_eq(name, "focusedmon") {
        match split_once(data, ",") {
            Some((monitor, _)) => Ok(EventPlan::FocusedMonitor(String::from_str(monitor))),
            None => Err(EventError::InvalidFormat),
        }
    } else if str_eq(name, "monitorremoved") || str_eq(name, "monitoradded") {
        Ok(EventPlan::Monitors)
    } else if str_eq(name, "activespecial") {
        match split_once(data, ">>") {
            Some((_, monitor)) => Ok(EventPlan::ActiveSpecial(String::from_str(monitor))),
            None => Err(EventError::InvalidFormat),
        }
    } else {
        Ok(EventPlan::Ignored)
    }
}

fn copy_workspace(w: &compositor::Workspace) -> (r: compositor::Workspace)
    ensures
        r == *w,
{
    compositor::Workspace {
        id: w.id.clone(),
        name: w.name.clone(),
        monitor: w.monitor.clone(),
        monitor_id: w.monitor_id,
    }
}

fn copy_monitor(m: &compositor::Monitor) -> (r: compositor::Monitor)
    ensures
        r == *m,
{
    let active_scratchpad = match &m.active_scratchpad {
        Some(w) => Some(copy_workspace(w)),
        None => None,
    };
    compositor::Monitor {
        id: m.id,
        name: m.name.clone(),
        width: m.width,
        height: m.height,
        refresh_rate: m.refresh_rate,
        x: m.x,
        y: m.y,
        active_scratchpad,
        active_workspace: copy_workspace(&m.active_workspace),
        scale: m.scale,
        focused: m.focused,
        disabled: m.disabled,
        mirror_of: m.mirror_of.clone(),
    }
}

/// `i` is the first of `s` named `name`.
pub open spec fn is_first_named(s: Seq<compositor::Monitor>, name: Seq<char>, i: int) -> bool {
    &&& 0 <= i < s.len()
    &&& s[i].name@ == name
    &&& forall|j: int| 0 <= j < i ==> s[j].name@ != name
}

/// The first of `monitors` named `name`.
fn find_named(monitors: Vec<compositor::Monitor>, name: &str) -> (r: Result<compositor::Monitor, EventError>)
    ensures
        match r {
            Ok(m) => exists|i: int| is_first_named(monitors@, name@, i) && m == monitors@[i],
            Err(e) => e == EventError::MonitorNotFound && forall|i: int|
                0 <= i < monitors@.len() ==> monitors@[i].name@ != name@,
        },
{
    let ghost all = monitors@;
    let n = monitors.len();
    let mut rest = monitors;
    let mut i: usize = 0;
    while rest.len() > 0
        invariant
            all == monitors@,
            all.len() == n,
            i + rest@.len() == all.len(),
            rest@ == all.subrange(i as int, all.len() as int),
            forall|j: int| 0 <= j < i ==> all[j].name@ != name@,
        decreases rest@.len(),
    {
        let m = rest.remove(0);
        assert(m == all[i as int]);
        if str_eq(m.name.as_str(), name) {
            assert(is_first_named(all, name@, i as int));
            return Ok(m);
        }
        assert(rest@ =~= all.subrange(i + 1, all.len() as int));
        i = i + 1;
    }
    Err(EventError::MonitorNotFound)
}

/// What a `focusedmon` event moves: the workspace of the monitor now
/// focused, its scratchpad, and the monitor.
pub fn focused_monitor_events(monitors: Vec<compositor::Monitor>, name: &str) -> (r: Result<
    Vec<CompositorEvent>,
    EventError,
>)
    ensures
        match r {
            Ok(events) => exists|i: int|
                is_first_named(monitors@, name@, i) && events@ == seq![
                    CompositorEvent::ActiveWorkspace(monitors@[i].active_workspace),
                    CompositorEvent::ActiveScratchpad(monitors@[i]),
                    CompositorEvent::ActiveMonitor(monitors@[i]),
                ],
            Err(e) => e == EventError::MonitorNotFound && forall|i: int|
                0 <= i < monitors@.len() ==> monitors@[i].name@ != name@,
        },
{
    let monitor = match find_named(monitors, name) {
        Ok(m) => m,
        Err(e) => return Err(e),
    };
    let mut events: Vec<CompositorEvent> = Vec::new();
    events.push(CompositorEvent::ActiveWorkspace(copy_workspace(&monitor.active_workspace)));
    events.push(CompositorEvent::ActiveScratchpad(copy_monitor(&monitor)));
    events.push(CompositorEvent::ActiveMonitor(monitor));
    Ok(events)
}

/// What an `activespecial` event moves: the scratchpad of the monitor it
/// names.
pub fn active_special_events(monitors: Vec<compositor::Monitor>, name: &str) -> (r: Result<
    Vec<CompositorEvent>,
    EventError,
>)
    ensures
        match r {
            Ok(events) => exists|i: int|
                is_first_named(monitors@, name@, i) && events@ == seq![
                    CompositorEvent::ActiveScratchpad(monitors@[i]),
                ],
            Err(e) => e == EventError::MonitorNotFound && forall|i: int|
                0 <= i < monitors@.len() ==> monitors@[i].name@ != name@,
        },
{
    let monitor = match find_named(monitors, name) {
        Ok(m) => m,
        Err(e) => return Err(e),
    };
    let mut events: Vec<CompositorEvent> = Vec::new();
    events.push(CompositorEvent::ActiveScratchpad(monitor));
    Ok(events)
}

/// What an event that moves the workspaces reports, from the replies to
/// the `workspaces` and `activeworkspace` requests: the workspaces, then
/// the active one; a failed reply's error, the first one's first.
pub fn workspace_events<E>(
    workspaces: Result<Vec<compositor::Workspace>, E>,
    active: Result<compositor::Workspace, E>,
) -> (r: Result<Vec<CompositorEvent>, E>)
    ensures
        match workspaces {
            Err(e) => r == Err::<Vec<CompositorEvent>, E>(e),
            Ok(ws) => match active {
                Err(e) => r == Err::<Vec<CompositorEvent>, E>(e),
                Ok(a) => r matches Ok(events) && events@ == seq![
                    CompositorEvent::Workspace(ws),
                    CompositorEvent::ActiveWorkspace(a),
                ],
            },
        },
{
    let workspaces = match workspaces {
        Ok(ws) => ws,
        Err(e) => return Err(e),
    };
    let active = match active {
        Ok(a) => a,
        Err(e) => return Err(e),
    };
    let mut events: Vec<CompositorEvent> = Vec::new();
    events.push(CompositorEvent::Workspace(workspaces));
    events.push(CompositorEvent::ActiveWorkspace(active));
    Ok(events)
}

/// What an event that adds or removes a monitor reports, from the reply to
/// the `monitors all` request: the monitors; the reply's error otherwise.
pub fn monitor_events<E>(monitors: Result<Vec<compositor::Monitor>, E>) -> (r: Result<
    Vec<CompositorEvent>,
    E,
>)
    ensures
        match monitors {
            Err(e) => r == Err::<Vec<CompositorEvent>, E>(e),
            Ok(ms) => r matches Ok(events) && events@ == seq![CompositorEvent::Monitor(ms)],
        },
{
    let monitors = match monitors {
        Ok(ms) => ms,
        Err(e) => return Err(e),
    };
    let mut events: Vec<CompositorEvent> = Vec::new();
    events.push(CompositorEvent::Monitor(monitors));
    Ok(events)
}

/// What an event that moves the windows reports, from the replies to the
/// `clients` and `activewindow` requests: the windows, then the active one;
/// a failed reply's error, the first one's first.
pub fn window_events<E>(
    windows: Result<Vec<compositor::Window>, E>,
    active: Result<Option<compositor::Window>, E>,
) -> (r: Result<Vec<CompositorEvent>, E>)
    ensures
        match windows {
            Err(e) => r == Err::<Vec<CompositorEvent>, E>(e),
            Ok(ws) => match active {
                Err(e) => r == Err::<Vec<CompositorEvent>, E>(e),
                Ok(a) => r matches Ok(events) && events@ == seq![
                    CompositorEvent::Window(ws),
                    CompositorEvent::ActiveWindow(a),
                ],
            },
        },
{
    let windows = match windows {
        Ok(ws) => ws,
        Err(e) => return Err(e),
    };
    let active = match active {
        Ok(a) => a,
        Err(e) => return Err(e),
    };
    let mut events: Vec<CompositorEvent> = Vec::new();
    events.push(CompositorEvent::Window(windows));
    events.push(CompositorEvent::ActiveWindow(active));
    Ok(events)
}

/// What an `activewindow` event reports, from the reply to the
/// `activewindow` request alone: the active window; the reply's error
/// otherwise.
pub fn active_window_events<E>(active: Result<Option<compositor::Window>, E>) -> (r: Result<
    Vec<CompositorEvent>,
    E,
>)
    ensures
        match active {
            Err(e) => r == Err::<Vec<CompositorEvent>, E>(e),
            Ok(a) => r matches Ok(events) && events@ == seq![CompositorEvent::ActiveWindow(a)],
        },
{
    let active = match active {
        Ok(a) => a,
        Err(e) => return Err(e),
    };
    let mut events: Vec<CompositorEvent> = Vec::new();
    events.push(CompositorEvent::ActiveWindow(active));
    Ok(events)
}

} // verus!
