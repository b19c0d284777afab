//! What the shell knows of the compositor, whichever compositor it is: its
//! workspaces, its monitors, and the events that move them.

use vstd::prelude::*;

verus! {

/// A workspace, known by the compositor's id for it.
pub struct Workspace {
    pub id: String,
    pub name: String,
    pub monitor: String,
    pub monitor_id: u32,
}

/// A monitor. The refresh rate and the scale are kept as the bit patterns of
/// their `f32` values.
pub struct Monitor {
    pub id: u32,
    pub name: String,
    pub width: u32,
    pub height: u32,
    pub refresh_rate: u32,
    pub x: i32,
    pub y: i32,
    pub active_scratchpad: Option<Workspace>,
    pub active_workspace: Workspace,
    pub scale: u32,
    pub focused: bool,
    pub disabled: bool,
    pub mirror_of: String,
}

/// A window, as scripts see it.
pub struct Window {
    pub address: String,
    pub monitor: i32,
    pub workspace: String,
    pub class: String,
    pub title: String,
    pub x: i32,
    pub y: i32,
}

/// A change the compositor reported, with the state it moved.
pub enum CompositorEvent {
    /// The windows, as they now are.
    Window(Vec<Window>),
    /// The window that now has focus, if any.
    ActiveWindow(Option<Window>),
    /// The workspaces, as they now are.
    Workspace(Vec<Workspace>),
    /// The workspace that now has focus.
    ActiveWorkspace(Workspace),
    /// A monitor whose special workspace may have changed.
    ActiveScratchpad(Monitor),
    /// The monitor that now has focus.
    ActiveMonitor(Monitor),
    /// The monitors, as they now are.
    Monitor(Vec<Monitor>),
}

/// `a` comes no later than `b` left to right, then top to bottom.
pub open spec fn position_le(a: Monitor, b: Monitor) -> bool {
    a.x < b.x || (a.x == b.x && a.y <= b.y)
}

/// `s` runs left to right, then top to bottom.
pub open spec fn by_position(s: Seq<Monitor>) -> bool {
    forall|i: int, j: int| 0 <= i < j < s.len() ==> position_le(s[i], s[j])
}

/// Sorts monitors left to right, then top to bottom.
pub fn sort_by_position(monitors: Vec<Monitor>) -> (r: Vec<Monitor>)
    ensures
        by_position(r@),
        r@.to_multiset() == monitors@.to_multiset(),
{
    let mut rest = monitors;
    let mut out: Vec<Monitor> = Vec::new();
    proof {
        assert(out@.to_multiset() =~= vstd::multiset::Multiset::<Monitor>::empty()) by {
            broadcast use vstd::multiset::group_multiset_axioms, vstd::seq_lib::group_to_multiset_ensures;

            assert(out@.to_multiset().len() == 0);
        }
    }
    while rest.len() > 0
        invariant
            by_position(out@),
            out@.to_multiset().add(rest@.to_multiset()) == monitors@.to_multiset(),
        decreases rest@.len(),
    {
        let ghost before_rest = rest@;
        let m = rest.pop().unwrap();
        assert(before_rest =~= rest@.push(m));
        let mut p: usize = 0;
        while p < out.len() && !(m.x < out[p].x || (m.x == out[p].x && m.y < out[p].y))
            invariant
                p <= out@.len(),
                forall|a: int| 0 <= a < p ==> position_le(out@[a], m),
            decreases out@.len() - p,
        {
            p = p + 1;
        }
        let ghost before = out@;
        out.insert(p, m);
        proof {
            assert forall|a: int, b: int| 0 <= a < b < out@.len() implies position_le(
                out@[a],
                out@[b],
            ) by {
                if a < p && b > p {
                    assert(out@[b] == before[b - 1]);
                    assert(position_le(before[a], before[b - 1]));
                } else if a < p && b < p {
                    assert(position_le(before[a], before[b]));
                } else if a == p && b > p {
                    assert(out@[b] == before[b - 1]);
                    assert(position_le(before[p as int], before[b - 1]) || b - 1 == p);
                } else if a > p {
                    assert(position_le(before[a - 1], before[b - 1]));
                }
            }
            vstd::seq_lib::to_multiset_insert(before, p as int, m);
            assert(out@ == before.insert(p as int, m));
            vstd::seq_lib::to_multiset_build(rest@, m);
            assert(out@.to_multiset().add(rest@.to_multiset()) =~= before.to_multiset().add(
                before_rest.to_multiset(),
            )) by {
                broadcast use vstd::multiset::group_multiset_axioms;
            }
        }
    }
    proof {
        assert(rest@.to_multiset() =~= vstd::multiset::Multiset::<Monitor>::empty()) by {
            broadcast use vstd::multiset::group_multiset_axioms, vstd::seq_lib::group_to_multiset_ensures;

            assert(rest@.to_multiset().len() == 0);
        }
        assert(out@.to_multiset().add(rest@.to_multiset()) =~= out@.to_multiset()) by {
            broadcast use vstd::multiset::group_multiset_axioms;
        }
    }
    out
}

} // verus!
