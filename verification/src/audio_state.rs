//! The audio graph kept from PipeWire's registry and metadata: the nodes by
//! id, the default sink and source by name, and the sink each stream is
//! pinned to, with the reports the UI is sent when one of them moves.

use std::collections::HashMap;

use dashmap::DashMap;
use vstd::prelude::*;

use crate::audio::{
    dict_get, node_type_of, opt_str_view, params_applied, params_touch, props_applied, registered, same_node,
    string_views, AudioNode, NodeParam, NodeType, Props,
};
use crate::icons::opt_view;
use crate::text::{parse_u64, parse_unsigned, str_eq};

verus! {

#[verifier::external_type_specification]
#[verifier::external_body]
#[verifier::reject_recursive_types(K)]
#[verifier::reject_recursive_types(V)]
#[verifier::reject_recursive_types(S)]
pub struct ExDashMap<K, V, S>(dashmap::DashMap<K, V, S>);

/// What a map of nodes holds, by id.
pub uninterp spec fn node_entries(m: DashMap<u32, AudioNode>) -> Map<u32, AudioNode>;

/// What a map of default names holds, by node kind.
pub uninterp spec fn default_entries(m: DashMap<NodeType, String>) -> Map<NodeType, Seq<char>>;

/// What a map of stream pins holds, by stream id.
pub uninterp spec fn target_entries(m: DashMap<u32, String>) -> Map<u32, Seq<char>>;

/// `DashMap::new` for nodes: an empty map.
#[verifier::external_body]
fn nodes_new() -> (r: DashMap<u32, AudioNode>)
    ensures
        node_entries(r).is_empty(),
{
    DashMap::new()
}

/// `DashMap::insert` for nodes: the node is stored under `id`, replacing
/// what was there.
#[verifier::external_body]
fn nodes_insert(m: &mut DashMap<u32, AudioNode>, id: u32, node: AudioNode)
    ensures
        node_entries(*final(m)) == node_entries(*old(m)).insert(id, node),
{
    m.insert(id, node);
}

/// `DashMap::remove` for nodes: the entry under `id` leaves and is handed
/// back, if there was one.
#[verifier::external_body]
fn nodes_remove(m: &mut DashMap<u32, AudioNode>, id: u32) -> (r: Option<AudioNode>)
    ensures
        node_entries(*final(m)) == node_entries(*old(m)).remove(id),
        match r {
            Some(n) => node_entries(*old(m)).contains_key(id) && n == node_entries(*old(m))[id],
            None => !node_entries(*old(m)).contains_key(id),
        },
{
    m.remove(&id).map(|(_, node)| node)
}

/// `DashMap::get` for nodes, with the node copied out of the guard.
#[verifier::external_body]
fn nodes_get(m: &DashMap<u32, AudioNode>, id: u32) -> (r: Option<AudioNode>)
    ensures
        match r {
            Some(n) => node_entries(*m).contains_key(id) && same_node(n, node_entries(*m)[id]),
            None => !node_entries(*m).contains_key(id),
        },
{
    m.get(&id).map(|entry| copy_node(entry.value()))
}

/// `DashMap::iter` for nodes, each entry copied out: every entry once, in
/// an order the map's hasher decides.
#[verifier::external_body]
fn nodes_snapshot(m: &DashMap<u32, AudioNode>) -> (r: Vec<(u32, AudioNode)>)
    ensures
        forall|i: int|
            0 <= i < r@.len() ==> node_entries(*m).contains_key(#[trigger] r@[i].0) && same_node(
                r@[i].1,
                node_entries(*m)[r@[i].0],
            ),
        forall|k: u32| #[trigger]
            node_entries(*m).contains_key(k) ==> exists|i: int| 0 <= i < r@.len() && r@[i].0 == k,
        forall|i: int, j: int| 0 <= i < j < r@.len() ==> r@[i].0 != r@[j].0,
{
    m.iter().map(|entry| (*entry.key(), copy_node(entry.value()))).collect()
}

/// `DashMap::new` for default names: an empty map.
#[verifier::external_body]
fn defaults_new() -> (r: DashMap<NodeType, String>)
    ensures
        default_entries(r).is_empty(),
{
    DashMap::new()
}

/// `DashMap::insert` for default names: `name` is stored under `kind`, and
/// the name it replaces is handed back.
#[verifier::external_body]
fn defaults_insert(m: &mut DashMap<NodeType, String>, kind: NodeType, name: String) -> (r: Option<
    String,
>)
    ensures
        default_entries(*final(m)) == default_entries(*old(m)).insert(kind, name@),
        match r {
            Some(p) => default_entries(*old(m)).contains_key(kind) && p@ == default_entries(
                *old(m),
            )[kind],
            None => !default_entries(*old(m)).contains_key(kind),
        },
{
    m.insert(kind, name)
}

/// `DashMap::remove` for default names: the name under `kind` leaves and is
/// handed back, if there was one.
#[verifier::external_body]
fn defaults_remove(m: &mut DashMap<NodeType, String>, kind: NodeType) -> (r: Option<String>)
    ensures
        default_entries(*final(m)) == default_entries(*old(m)).remove(kind),
        match r {
            Some(p) => default_entries(*old(m)).contains_key(kind) && p@ == default_entries(
                *old(m),
            )[kind],
            None => !default_entries(*old(m)).contains_key(kind),
        },
{
    m.remove(&kind).map(|(_, name)| name)
}

/// `DashMap::get` for default names, with the name cloned out of the guard.
#[verifier::external_body]
fn defaults_get(m: &DashMap<NodeType, String>, kind: NodeType) -> (r: Option<String>)
    ensures
        match r {
            Some(p) => default_entries(*m).contains_key(kind) && p@ == default_entries(*m)[kind],
            None => !default_entries(*m).contains_key(kind),
        },
{
    m.get(&kind).map(|entry| entry.value().clone())
}

/// `DashMap::new` for pins: an empty map.
#[verifier::external_body]
fn targets_new() -> (r: DashMap<u32, String>)
    ensures
        target_entries(r).is_empty(),
{
    DashMap::new()
}

/// `DashMap::insert` for pins: `name` is stored under `id`, and the name it
/// replaces is handed back.
#[verifier::external_body]
fn targets_insert(m: &mut DashMap<u32, String>, id: u32, name: String) -> (r: Option<String>)
    ensures
        target_entries(*final(m)) == target_entries(*old(m)).insert(id, name@),
        match r {
            Some(p) => target_entries(*old(m)).contains_key(id) && p@ == target_entries(*old(m))[id],
            None => !target_entries(*old(m)).contains_key(id),
        },
{
    m.insert(id, name)
}

/// `DashMap::remove` for pins: the name under `id` leaves and is handed
/// back, if there was one.
#[verifier::external_body]
fn targets_remove(m: &mut DashMap<u32, String>, id: u32) -> (r: Option<String>)
    ensures
        target_entries(*final(m)) == target_entries(*old(m)).remove(id),
        match r {
            Some(p) => target_entries(*old(m)).contains_key(id) && p@ == target_entries(*old(m))[id],
            None => !target_entries(*old(m)).contains_key(id),
        },
{
    m.remove(&id).map(|(_, name)| name)
}

/// `DashMap::iter` for pins, each entry cloned out: every entry once, in an
/// order the map's hasher decides.
#[verifier::external_body]
fn targets_snapshot(m: &DashMap<u32, String>) -> (r: Vec<(u32, String)>)
    ensures
        forall|i: int|
            0 <= i < r@.len() ==> target_entries(*m).contains_key(#[trigger] r@[i].0)
                && r@[i].1@ == target_entries(*m)[r@[i].0],
        forall|k: u32| #[trigger]
            target_entries(*m).contains_key(k) ==> exists|i: int| 0 <= i < r@.len() && r@[i].0 == k,
        forall|i: int, j: int| 0 <= i < j < r@.len() ==> r@[i].0 != r@[j].0,
{
    m.iter().map(|entry| (*entry.key(), entry.value().clone())).collect()
}

/// A copy of `n`, field by field.
fn copy_node(n: &AudioNode) -> (r: AudioNode)
    ensures
        same_node(r, *n),
{
    let nickname = match &n.nickname {
        Some(nick) => Some(nick.clone()),
        None => None,
    };
    let volumes = n.volumes.clone();
    assert(volumes@ =~= n.volumes@);
    let app = n.app.clone();
    assert(string_views(app@) =~= string_views(n.app@));
    AudioNode {
        id: n.id,
        serial: n.serial,
        kind: n.kind,
        name: n.name.clone(),
        description: n.description.clone(),
        nickname,
        device: n.device,
        profile_device: n.profile_device,
        volumes,
        mute: n.mute,
        app,
    }
}

/// A slice of the audio graph that moved, as the UI is sent it.
#[derive(Debug)]
pub enum AudioEvent {
    /// The nodes of a kind, by ascending id.
    Nodes(NodeType, Vec<AudioNode>),
    /// The node the default sink names.
    DefaultSink(Option<AudioNode>),
    /// The node the default source names.
    DefaultSource(Option<AudioNode>),
    /// The sink each pinned stream resolves to.
    Targets(HashMap<u32, u32>),
}

/// The state of the audio graph. Nodes are keyed by their id.
pub struct AudioState {
    pub nodes: DashMap<u32, AudioNode>,
    pub defaults: DashMap<NodeType, String>,
    pub targets: DashMap<u32, String>,
}

/// `node` is a sink that `pin` names, by serial or by name.
pub open spec fn pin_names(node: AudioNode, pin: Seq<char>) -> bool {
    &&& node.kind == NodeType::Sink
    &&& (<u64 as crate::audio::Field>::parse_spec(pin) == Some(node.serial) || node.name@ == pin)
}

/// `after` is `before` with the default of `kind` set to `name`, or
/// cleared by `None`, and `events` reports the new default once if that
/// changed it and is empty if it did not.
pub open spec fn default_set(
    before: AudioState,
    after: AudioState,
    kind: NodeType,
    name: Option<Seq<char>>,
    events: Seq<AudioEvent>,
) -> bool {
    &&& after.default_map() == match name {
        Some(n) => before.default_map().insert(kind, n),
        None => before.default_map().remove(kind),
    }
    &&& after.node_map() == before.node_map()
    &&& after.target_map() == before.target_map()
    &&& events.len() <= 1
    &&& (events.len() == 1 <==> after.default_map() != before.default_map())
    &&& events.len() == 1 ==> after.is_default_event(kind, events[0])
}

/// `after` is `before` with stream `id` pinned to `name`, or unpinned by
/// `None`, and `events` reports the resolved pins once if that changed the
/// pins and is empty if it did not.
pub open spec fn target_set(
    before: AudioState,
    after: AudioState,
    id: u32,
    name: Option<Seq<char>>,
    events: Seq<AudioEvent>,
) -> bool {
    &&& after.target_map() == match name {
        Some(n) => before.target_map().insert(id, n),
        None => before.target_map().remove(id),
    }
    &&& after.node_map() == before.node_map()
    &&& after.default_map() == before.default_map()
    &&& events.len() <= 1
    &&& (events.len() == 1 <==> after.target_map() != before.target_map())
    &&& events.len() == 1 ==> after.is_targets_event(events[0])
}

impl AudioState {
    /// The nodes, by id.
    pub open spec fn node_map(&self) -> Map<u32, AudioNode> {
        node_entries(self.nodes)
    }

    /// The default node name of each kind that has one.
    pub open spec fn default_map(&self) -> Map<NodeType, Seq<char>> {
        default_entries(self.defaults)
    }

    /// The name or serial each pinned stream is pinned to.
    pub open spec fn target_map(&self) -> Map<u32, Seq<char>> {
        target_entries(self.targets)
    }

    /// Every node is stored under its own id.
    pub open spec fn wf(&self) -> bool {
        forall|k: u32| #[trigger]
            self.node_map().contains_key(k) ==> self.node_map()[k].id == k
    }

    /// `s` lists the nodes of `kind`, by ascending id.
    pub open spec fn is_listing(&self, kind: NodeType, s: Seq<AudioNode>) -> bool {
        &&& forall|i: int, j: int| 0 <= i < j < s.len() ==> s[i].id < s[j].id
        &&& forall|i: int|
            #![trigger s[i]]
            0 <= i < s.len() ==> {
                &&& self.node_map().contains_key(s[i].id)
                &&& s[i].kind == kind
                &&& same_node(s[i], self.node_map()[s[i].id])
            }
        &&& forall|k: u32| #[trigger]
            self.node_map().contains_key(k) && self.node_map()[k].kind == kind ==> exists|i: int|
                0 <= i < s.len() && s[i].id == k
    }

    /// The node stored under `k` is of `kind` and has the name the default
    /// of `kind` names.
    pub open spec fn names_default(&self, kind: NodeType, k: u32) -> bool {
        &&& self.node_map().contains_key(k)
        &&& self.node_map()[k].kind == kind
        &&& self.default_map().contains_key(kind)
        &&& self.node_map()[k].name@ == self.default_map()[kind]
    }

    /// `o` is what the default of `kind` resolves to: a node it names, or
    /// `None` when it names none.
    pub open spec fn is_default_report(&self, kind: NodeType, o: Option<AudioNode>) -> bool {
        match o {
            Some(n) => exists|k: u32| #[trigger]
                self.names_default(kind, k) && same_node(n, self.node_map()[k]),
            None => forall|k: u32| !#[trigger] self.names_default(kind, k),
        }
    }

    /// The pin of stream `s` names the node stored under `k`.
    pub open spec fn resolves(&self, s: u32, k: u32) -> bool {
        &&& self.target_map().contains_key(s)
        &&& self.node_map().contains_key(k)
        &&& pin_names(self.node_map()[k], self.target_map()[s])
    }

    /// `m` maps each pinned stream whose pin names a sink to the id of such
    /// a sink, and holds no other stream.
    pub open spec fn is_targets_report(&self, m: Map<u32, u32>) -> bool {
        &&& forall|s: u32| #[trigger]
            m.contains_key(s) <==> exists|k: u32| #[trigger] self.resolves(s, k)
        &&& forall|s: u32| #[trigger]
            m.contains_key(s) ==> exists|k: u32| #[trigger]
                self.resolves(s, k) && self.node_map()[k].id == m[s]
    }

    /// `e` reports the default of `kind`: a source's as `DefaultSource`,
    /// any other's as `DefaultSink`.
    pub open spec fn is_default_event(&self, kind: NodeType, e: AudioEvent) -> bool {
        match e {
            AudioEvent::DefaultSource(o) => kind == NodeType::Source && self.is_default_report(kind, o),
            AudioEvent::DefaultSink(o) => kind != NodeType::Source && self.is_default_report(kind, o),
            _ => false,
        }
    }

    /// `e` lists the nodes of `kind`.
    pub open spec fn is_nodes_event(&self, kind: NodeType, e: AudioEvent) -> bool {
        match e {
            AudioEvent::Nodes(k, v) => k == kind && self.is_listing(kind, v@),
            _ => false,
        }
    }

    /// `e` reports where the pinned streams resolve.
    pub open spec fn is_targets_event(&self, e: AudioEvent) -> bool {
        match e {
            AudioEvent::Targets(m) => self.is_targets_report(m@),
            _ => false,
        }
    }

    /// `s` is what a change to a node of `kind` moves: its list, then the
    /// default a sink or a source can be, then the pins a sink or a stream
    /// can take part in.
    pub open spec fn is_node_events(&self, kind: NodeType, s: Seq<AudioEvent>) -> bool {
        match kind {
            NodeType::Sink => s.len() == 3 && self.is_nodes_event(kind, s[0])
                && self.is_default_event(kind, s[1]) && self.is_targets_event(s[2]),
            NodeType::Source => s.len() == 2 && self.is_nodes_event(kind, s[0])
                && self.is_default_event(kind, s[1]),
            NodeType::Stream => s.len() == 2 && self.is_nodes_event(kind, s[0])
                && self.is_targets_event(s[1]),
        }
    }

    /// An empty graph.
    pub fn new() -> (r: AudioState)
        ensures
            r.node_map() == Map::<u32, AudioNode>::empty(),
            r.default_map() == Map::<NodeType, Seq<char>>::empty(),
            r.target_map() == Map::<u32, Seq<char>>::empty(),
            r.wf(),
    {
        AudioState { nodes: nodes_new(), defaults: defaults_new(), targets: targets_new() }
    }

    /// A copy of the node stored under `id`.
    pub fn node(&self, id: u32) -> (r: Option<AudioNode>)
        ensures
            match r {
                Some(n) => self.node_map().contains_key(id) && same_node(n, self.node_map()[id]),
                None => !self.node_map().contains_key(id),
            },
    {
        nodes_get(&self.nodes, id)
    }

    /// The nodes of `kind`, by ascending id.
    #[verifier::rlimit(40)]
    pub fn list(&self, kind: NodeType) -> (r: Vec<AudioNode>)
        requires
            self.wf(),
        ensures
            self.is_listing(kind, r@),
    {
        let snap = nodes_snapshot(&self.nodes);
        let ghost m = self.node_map();
        let mut out: Vec<AudioNode> = Vec::new();
        let mut i: usize = 0;
        while i < snap.len()
            invariant
                m == self.node_map(),
                self.wf(),
                i <= snap@.len(),
                forall|a: int| 0 <= a < snap@.len() ==> m.contains_key(#[trigger] snap@[a].0)
                    && same_node(snap@[a].1, m[snap@[a].0]),
                forall|a: int, b: int| 0 <= a < b < snap@.len() ==> snap@[a].0 != snap@[b].0,
                forall|k: u32| #[trigger]
                    m.contains_key(k) ==> exists|a: int| 0 <= a < snap@.len() && snap@[a].0 == k,
                forall|a: int, b: int| 0 <= a < b < out@.len() ==> out@[a].id < out@[b].id,
                forall|a: int|
                    #![trigger out@[a]]
                    0 <= a < out@.len() ==> {
                        &&& m.contains_key(out@[a].id)
                        &&& out@[a].kind == kind
                        &&& same_node(out@[a], m[out@[a].id])
                    },
                forall|a: int|
                    0 <= a < out@.len() ==> exists|b: int|
                        0 <= b < i && snap@[b].0 == #[trigger] out@[a].id,
                forall|b: int|
                    0 <= b < i && #[trigger] snap@[b].1.kind == kind ==> exists|a: int|
                        0 <= a < out@.len() && out@[a].id == snap@[b].0,
            decreases snap@.len() - i,
        {
            let key = snap[i].0;
            let entry = &snap[i];
            if entry.1.kind == kind {
                let candidate = copy_node(&entry.1);
                proof {
                    assert(m.contains_key(key));
                    assert(same_node(entry.1, m[key]));
                }
                let id = entry.1.id;
                let mut p: usize = 0;
                while p < out.len() && out[p].id < id
                    invariant
                        p <= out@.len(),
                        forall|a: int| 0 <= a < p ==> out@[a].id < id,
                    decreases out@.len() - p,
                {
                    p = p + 1;
                }
                let ghost before = out@;
                assert(forall|a: int| 0 <= a < before.len() ==> before[a].id != id) by {
                    assert forall|a: int| 0 <= a < before.len() implies before[a].id != id by {
                        let b = choose|b: int| 0 <= b < i && snap@[b].0 == before[a].id;
                        assert(snap@[b].0 != snap@[i as int].0);
                    }
                }
                out.insert(p, candidate);
                proof {
                    assert forall|a: int, b: int| 0 <= a < b < out@.len() implies out@[a].id
                        < out@[b].id by {
                        if p < before.len() {
                            assert(before[p as int].id >= id);
                        }
                    }
                    assert forall|a: int| #![trigger out@[a]] 0 <= a < out@.len() implies {
                        &&& m.contains_key(out@[a].id)
                        &&& out@[a].kind == kind
                        &&& same_node(out@[a], m[out@[a].id])
                        &&& exists|b: int| 0 <= b < i + 1 && snap@[b].0 == out@[a].id
                    } by {
                        if a < p {
                            assert(out@[a] == before[a]);
                        } else if a > p {
                            assert(out@[a] == before[a - 1]);
                        } else {
                            assert(snap@[i as int].0 == out@[a].id);
                        }
                    }
                    assert forall|b: int|
                        0 <= b < i + 1 && #[trigger] snap@[b].1.kind == kind implies exists|a: int|
                        0 <= a < out@.len() && out@[a].id == snap@[b].0 by {
                        if b < i {
                            let a = choose|a: int| 0 <= a < before.len() && before[a].id == snap@[b].0;
                            if a < p {
                                assert(out@[a] == before[a]);
                            } else {
                                assert(out@[a + 1] == before[a]);
                            }
                        } else {
                            assert(out@[p as int].id == snap@[b].0);
                        }
                    }
                }
            }
            i = i + 1;
        }
        proof {
            assert forall|k: u32| #[trigger]
                m.contains_key(k) && m[k].kind == kind implies exists|a: int|
                0 <= a < out@.len() && out@[a].id == k by {
                let b = choose|b: int| 0 <= b < snap@.len() && snap@[b].0 == k;
                assert(snap@[b].1.kind == kind);
            }
        }
        out
    }

    /// The node the default of `kind` names, if one does.
    pub fn default(&self, kind: NodeType) -> (r: Option<AudioNode>)
        ensures
            self.is_default_report(kind, r),
    {
        let name = match defaults_get(&self.defaults, kind) {
            Some(name) => name,
            None => return None,
        };
        let snap = nodes_snapshot(&self.nodes);
        let ghost m = self.node_map();
        let mut i: usize = 0;
        while i < snap.len()
            invariant
                m == self.node_map(),
                self.default_map().contains_key(kind),
                name@ == self.default_map()[kind],
                i <= snap@.len(),
                forall|a: int|
                    0 <= a < snap@.len() ==> m.contains_key(#[trigger] snap@[a].0) && same_node(
                        snap@[a].1,
                        m[snap@[a].0],
                    ),
                forall|k: u32| #[trigger]
                    m.contains_key(k) ==> exists|a: int| 0 <= a < snap@.len() && snap@[a].0 == k,
                forall|a: int|
                    0 <= a < i ==> !((#[trigger] snap@[a].1).kind == kind && snap@[a].1.name@
                        == name@),
            decreases snap@.len() - i,
        {
            let entry = &snap[i];
            if entry.1.kind == kind && str_eq(entry.1.name.as_str(), name.as_str()) {
                let found = copy_node(&entry.1);
                assert(self.names_default(kind, entry.0));
                return Some(found);
            }
            i = i + 1;
        }
        assert forall|k: u32| !#[trigger] self.names_default(kind, k) by {
            if self.names_default(kind, k) {
                let a = choose|a: int| 0 <= a < snap@.len() && snap@[a].0 == k;
                assert(same_node(snap@[a].1, m[k]));
            }
        }
        None
    }

    /// Each pinned stream whose pin names a sink, with the id of that sink.
    pub fn resolved_targets(&self) -> (r: HashMap<u32, u32>)
        ensures
            self.is_targets_report(r@),
            r@.dom().finite(),
            r@.len() <= self.target_map().dom().len(),
    {
        broadcast use vstd::std_specs::hash::group_hash_axioms;

        let pins = targets_snapshot(&self.targets);
        let snap = nodes_snapshot(&self.nodes);
        let ghost m = self.node_map();
        let ghost t = self.target_map();
        let mut out: HashMap<u32, u32> = HashMap::new();
        let mut i: usize = 0;
        while i < pins.len()
            invariant
                m == self.node_map(),
                t == self.target_map(),
                i <= pins@.len(),
                forall|a: int|
                    0 <= a < snap@.len() ==> m.contains_key(#[trigger] snap@[a].0) && same_node(
                        snap@[a].1,
                        m[snap@[a].0],
                    ),
                forall|k: u32| #[trigger]
                    m.contains_key(k) ==> exists|a: int| 0 <= a < snap@.len() && snap@[a].0 == k,
                forall|a: int|
                    0 <= a < pins@.len() ==> t.contains_key(#[trigger] pins@[a].0) && pins@[a].1@
                        == t[pins@[a].0],
                forall|a: int, b: int| 0 <= a < b < pins@.len() ==> pins@[a].0 != pins@[b].0,
                forall|s: u32| #[trigger]
                    out@.contains_key(s) <==> (exists|a: int| 0 <= a < i && pins@[a].0 == s)
                        && exists|k: u32| #[trigger] self.resolves(s, k),
                forall|s: u32| #[trigger]
                    out@.contains_key(s) ==> exists|k: u32| #[trigger]
                        self.resolves(s, k) && m[k].id == out@[s],
            decreases pins@.len() - i,
        {
            let stream = pins[i].0;
            let found = find_sink(&snap, pins[i].1.as_str(), Ghost(m));
            let ghost before = out@;
            match found {
                Some(id) => {
                    out.insert(stream, id);
                    proof {
                        let k = choose|k: u32| m.contains_key(k) && pin_names(m[k], pins@[i as int].1@) && m[k].id == id;
                        assert(self.resolves(stream, k));
                    }
                },
                None => {
                    proof {
                        assert forall|k: u32| !#[trigger] self.resolves(stream, k) by {
                            if self.resolves(stream, k) {
                                assert(m.contains_key(k));
                            }
                        }
                    }
                },
            }
            proof {
                assert forall|s: u32| #[trigger]
                    out@.contains_key(s) <==> (exists|a: int| 0 <= a < i + 1 && pins@[a].0 == s)
                        && exists|k: u32| #[trigger] self.resolves(s, k) by {
                    if s != stream {
                        if exists|a: int| 0 <= a < i + 1 && pins@[a].0 == s {
                            let a = choose|a: int| 0 <= a < i + 1 && pins@[a].0 == s;
                            assert(a < i);
                        }
                    } else {
                        assert(pins@[i as int].0 == s);
                        if exists|a: int| 0 <= a < i && pins@[a].0 == s {
                            let a = choose|a: int| 0 <= a < i && pins@[a].0 == s;
                            assert(pins@[a].0 != pins@[i as int].0);
                        }
                    }
                }
            }
            i = i + 1;
        }
        proof {
            assert forall|s: u32| #[trigger]
                out@.contains_key(s) <==> exists|k: u32| #[trigger] self.resolves(s, k) by {
                if exists|k: u32| #[trigger] self.resolves(s, k) {
                    let k = choose|k: u32| #[trigger] self.resolves(s, k);
                    assert(t.contains_key(s));
                    let a = choose|a: int| 0 <= a < pins@.len() && pins@[a].0 == s;
                }
            }
            let keys = pins@.map_values(|p: (u32, String)| p.0);
            assert(keys.to_set().finite()) by {
                broadcast use vstd::seq_lib::seq_to_set_is_finite;
            }
            assert(t.dom().subset_of(keys.to_set())) by {
                assert forall|s: u32| t.dom().contains(s) implies keys.to_set().contains(s) by {
                    let a = choose|a: int| 0 <= a < pins@.len() && pins@[a].0 == s;
                    assert(keys[a] == s);
                }
            }
            vstd::set_lib::lemma_len_subset(t.dom(), keys.to_set());
            assert(out@.dom().subset_of(t.dom())) by {
                assert forall|s: u32| out@.dom().contains(s) implies t.dom().contains(s) by {
                    let k = choose|k: u32| #[trigger] self.resolves(s, k);
                }
            }
            vstd::set_lib::lemma_len_subset(out@.dom(), t.dom());
        }
        out
    }

    /// The report of the default of `kind`.
    fn default_event(&self, kind: NodeType) -> (r: AudioEvent)
        ensures
            self.is_default_event(kind, r),
    {
        let node = self.default(kind);
        match kind {
            NodeType::Source => AudioEvent::DefaultSource(node),
            _ => AudioEvent::DefaultSink(node),
        }
    }

    /// Sets the default of `kind` to `name`, or clears it on `None`; reports
    /// the new default when that changed it.
    pub fn set_default(&mut self, kind: NodeType, name: Option<String>) -> (r: Vec<AudioEvent>)
        ensures
            default_set(*old(self), *final(self), kind, opt_view(name), r@),
    {
        let changed = match name {
            Some(name) => {
                let kept = name.clone();
                let prev = defaults_insert(&mut self.defaults, kind, name);
                match prev {
                    Some(p) => {
                        let same = str_eq(p.as_str(), kept.as_str());
                        proof {
                            if same {
                                assert(self.default_map() =~= old(self).default_map());
                            } else {
                                assert(self.default_map()[kind] != old(self).default_map()[kind]);
                            }
                        }
                        !same
                    },
                    None => {
                        assert(!old(self).default_map().contains_key(kind));
                        assert(self.default_map().contains_key(kind));
                        true
                    },
                }
            },
            None => {
                let prev = defaults_remove(&mut self.defaults, kind);
                proof {
                    if prev is None {
                        assert(self.default_map() =~= old(self).default_map());
                    } else {
                        assert(!self.default_map().contains_key(kind));
                    }
                }
                prev.is_some()
            },
        };
        let mut events: Vec<AudioEvent> = Vec::new();
        if changed {
            events.push(self.default_event(kind));
        }
        events
    }

    /// Pins stream `id` to `name`, or unpins it on `None`; reports the
    /// resolved pins when that changed the pins.
    pub fn set_target(&mut self, id: u32, name: Option<String>) -> (r: Vec<AudioEvent>)
        ensures
            target_set(*old(self), *final(self), id, opt_view(name), r@),
    {
        let changed = match name {
            Some(name) => {
                let kept = name.clone();
                let prev = targets_insert(&mut self.targets, id, name);
                match prev {
                    Some(p) => {
                        let same = str_eq(p.as_str(), kept.as_str());
                        proof {
                            if same {
                                assert(self.target_map() =~= old(self).target_map());
                            } else {
                                assert(self.target_map()[id] != old(self).target_map()[id]);
                            }
                        }
                        !same
                    },
                    None => {
                        assert(!old(self).target_map().contains_key(id));
                        assert(self.target_map().contains_key(id));
                        true
                    },
                }
            },
            None => {
                let prev = targets_remove(&mut self.targets, id);
                proof {
                    if prev is None {
                        assert(self.target_map() =~= old(self).target_map());
                    } else {
                        assert(!self.target_map().contains_key(id));
                    }
                }
                prev.is_some()
            },
        };
        let mut events: Vec<AudioEvent> = Vec::new();
        if changed {
            events.push(AudioEvent::Targets(self.resolved_targets()));
        }
        events
    }

    /// What a change to a node of `kind` moves.
    pub fn node_events(&self, kind: NodeType) -> (r: Vec<AudioEvent>)
        requires
            self.wf(),
        ensures
            self.is_node_events(kind, r@),
    {
        let mut events: Vec<AudioEvent> = Vec::new();
        events.push(AudioEvent::Nodes(kind, self.list(kind)));
        match kind {
            NodeType::Sink => {
                events.push(self.default_event(kind));
                events.push(AudioEvent::Targets(self.resolved_targets()));
            },
            NodeType::Source => events.push(self.default_event(kind)),
            NodeType::Stream => events.push(AudioEvent::Targets(self.resolved_targets())),
        }
        events
    }

    /// Reads an info event's properties into node `id`; reports what moved
    /// when that changed the node. A node not in the graph is left alone.
    pub fn update_props(&mut self, id: u32, props: &Props) -> (r: Vec<AudioEvent>)
        requires
            old(self).wf(),
        ensures
            final(self).wf(),
            final(self).default_map() == old(self).default_map(),
            final(self).target_map() == old(self).target_map(),
            !old(self).node_map().contains_key(id) ==> final(self).node_map() == old(self).node_map()
                && r@.len() == 0,
            old(self).node_map().contains_key(id) ==> {
                &&& final(self).node_map().contains_key(id)
                &&& final(self).node_map().remove(id) == old(self).node_map().remove(id)
                &&& props_applied(old(self).node_map()[id], final(self).node_map()[id], props@)
                &&& same_node(old(self).node_map()[id], final(self).node_map()[id]) ==> r@.len()
                    == 0
                &&& !same_node(old(self).node_map()[id], final(self).node_map()[id])
                    ==> final(self).is_node_events(old(self).node_map()[id].kind, r@)
            },
    {
        let mut node = match nodes_get(&self.nodes, id) {
            Some(node) => node,
            None => return Vec::new(),
        };
        if !node.update_props(props) {
            return Vec::new();
        }
        let kind = node.kind;
        nodes_insert(&mut self.nodes, id, node);
        assert(self.node_map().remove(id) =~= old(self).node_map().remove(id));
        self.node_events(kind)
    }

    /// Reads a parameter object into node `id`; reports what moved when the
    /// object set a volume or a mute. A node not in the graph is left alone.
    pub fn update_params(&mut self, id: u32, params: &Vec<NodeParam>) -> (r: Vec<AudioEvent>)
        requires
            old(self).wf(),
        ensures
            final(self).wf(),
            final(self).default_map() == old(self).default_map(),
            final(self).target_map() == old(self).target_map(),
            !old(self).node_map().contains_key(id) ==> final(self).node_map() == old(self).node_map()
                && r@.len() == 0,
            old(self).node_map().contains_key(id) ==> {
                &&& final(self).node_map().contains_key(id)
                &&& final(self).node_map().remove(id) == old(self).node_map().remove(id)
                &&& params_applied(old(self).node_map()[id], final(self).node_map()[id], params@)
                &&& !params_touch(params@) ==> r@.len() == 0
                &&& params_touch(params@) ==> final(self).is_node_events(
                    old(self).node_map()[id].kind,
                    r@,
                )
            },
    {
        let mut node = match nodes_get(&self.nodes, id) {
            Some(node) => node,
            None => return Vec::new(),
        };
        if !node.update_params(params) {
            return Vec::new();
        }
        let kind = node.kind;
        nodes_insert(&mut self.nodes, id, node);
        assert(self.node_map().remove(id) =~= old(self).node_map().remove(id));
        self.node_events(kind)
    }

    /// Adds the node the registry announced as `id`, when its `media.class`
    /// names an audio node kind and it has a `node.name`; says whether it did.
    pub fn add_node(&mut self, id: u32, props: &Props) -> (added: bool)
        requires
            old(self).wf(),
        ensures
            final(self).wf(),
            final(self).default_map() == old(self).default_map(),
            final(self).target_map() == old(self).target_map(),
            added == (announced_kind(props@) is Some && dict_get(props@, "node.name"@) is Some),
            !added ==> final(self).node_map() == old(self).node_map(),
            added ==> {
                &&& final(self).node_map().contains_key(id)
                &&& final(self).node_map().remove(id) == old(self).node_map().remove(id)
                &&& registered(id, announced_kind(props@)->0, props@, final(self).node_map()[id])
            },
    {
        let class = match props.get("media.class") {
            Some(class) => class,
            None => return false,
        };
        let kind = match NodeType::from_str(class) {
            Ok(kind) => kind,
            Err(_) => return false,
        };
        let node = match AudioNode::new(id, kind, props) {
            Some(node) => node,
            None => return false,
        };
        nodes_insert(&mut self.nodes, id, node);
        assert(self.node_map().remove(id) =~= old(self).node_map().remove(id));
        true
    }

    /// Forgets global `id`: its pin, and the node if it was one; says
    /// whether it was a node.
    pub fn remove_global(&mut self, id: u32) -> (was_node: bool)
        requires
            old(self).wf(),
        ensures
            final(self).wf(),
            final(self).node_map() == old(self).node_map().remove(id),
            final(self).target_map() == old(self).target_map().remove(id),
            final(self).default_map() == old(self).default_map(),
            was_node == old(self).node_map().contains_key(id),
    {
        targets_remove(&mut self.targets, id);
        let removed = nodes_remove(&mut self.nodes, id);
        removed.is_some()
    }
}

/// The string member `key` of the JSON object `doc` holds, as
/// `serde_json` reads it; `None` when `doc` is no JSON object or the member
/// is missing or no string.
pub uninterp spec fn json_str_member(doc: Seq<char>, key: Seq<char>) -> Option<Seq<char>>;

/// The string the JSON document `doc` is, as `serde_json` reads it; `None`
/// when `doc` is no JSON string.
pub uninterp spec fn json_string(doc: Seq<char>) -> Option<Seq<char>>;

/// `serde_json::from_str` into a `serde_json::Value`, then `Value::get` of
/// `key` and `Value::as_str`: the claim is only that the result is a
/// function of `doc` and `key`, named [`json_str_member`].
#[verifier::external_body]
fn json_member(doc: &str, key: &str) -> (r: Option<String>)
    ensures
        opt_view(r) == json_str_member(doc@, key@),
{
    serde_json::from_str::<serde_json::Value>(doc).ok().and_then(
        |value| value.get(key).and_then(|member| member.as_str()).map(|s| s.to_string()),
    )
}

/// `serde_json::from_str` into a `String`: the claim is only that the
/// result is a function of `doc`, named [`json_string`].
#[verifier::external_body]
fn parse_json_string(doc: &str) -> (r: Option<String>)
    ensures
        opt_view(r) == json_string(doc@),
{
    serde_json::from_str::<String>(doc).ok()
}

/// The node name a `default.audio.*` metadata value holds: the `name`
/// member of the JSON object it is.
pub fn metadata_name(value: &str) -> (r: Option<String>)
    ensures
        opt_view(r) == json_str_member(value@, "name"@),
{
    json_member(value, "name")
}

/// What a pin's value reads as: the JSON string it is, else the value as
/// written.
pub open spec fn unquoted(value: Seq<char>) -> Seq<char> {
    match json_string(value) {
        Some(s) => s,
        None => value,
    }
}

/// `parsed` when there is one, else `value` as written.
pub fn parsed_or_verbatim(value: &str, parsed: Option<String>) -> (r: String)
    ensures
        r@ == match parsed {
            Some(s) => s@,
            None => value@,
        },
{
    match parsed {
        Some(s) => s,
        None => String::from_str(value),
    }
}

/// A pin's value, whether wireplumber wrote it as a JSON string or bare.
pub fn unquote(value: &str) -> (r: String)
    ensures
        r@ == unquoted(value@),
{
    parsed_or_verbatim(value, parse_json_string(value))
}

/// The default name a `default.audio.*` metadata value sets; `None` clears.
pub open spec fn metadata_default(value: Option<Seq<char>>) -> Option<Seq<char>> {
    match value {
        Some(v) => json_str_member(v, "name"@),
        None => None,
    }
}

/// The pin a `target.object` metadata value sets; `None` clears.
pub open spec fn metadata_pin(value: Option<Seq<char>>) -> Option<Seq<char>> {
    match value {
        Some(v) => Some(unquoted(v)),
        None => None,
    }
}

impl AudioState {
    /// Applies a property of the default metadata object: the default sink,
    /// the default source, or a stream's pin; any other key is ignored.
    /// Reports what moved.
    pub fn metadata_property(&mut self, subject: u32, key: Option<&str>, value: Option<&str>) -> (r:
        Vec<AudioEvent>)
        ensures
            match opt_str_view(key) {
                Some(k) => if k == "default.audio.sink"@ {
                    default_set(*old(self), *final(self), NodeType::Sink, metadata_default(opt_str_view(value)), r@)
                } else if k == "default.audio.source"@ {
                    default_set(*old(self), *final(self), NodeType::Source, metadata_default(opt_str_view(value)), r@)
                } else if k == "target.object"@ {
                    target_set(*old(self), *final(self), subject, metadata_pin(opt_str_view(value)), r@)
                } else {
                    *final(self) == *old(self) && r@.len() == 0
                },
                None => *final(self) == *old(self) && r@.len() == 0,
            },
    {
        let key = match key {
            Some(key) => key,
            None => return Vec::new(),
        };
        if str_eq(key, "default.audio.sink") {
            let name = match value {
                Some(v) => metadata_name(v),
                None => None,
            };
            self.set_default(NodeType::Sink, name)
        } else if str_eq(key, "default.audio.source") {
            let name = match value {
                Some(v) => metadata_name(v),
                None => None,
            };
            self.set_default(NodeType::Source, name)
        } else if str_eq(key, "target.object") {
            let pin = match value {
                Some(v) => Some(unquote(v)),
                None => None,
            };
            self.set_target(subject, pin)
        } else {
            Vec::new()
        }
    }
}

/// The registry's metadata object worth following: the one named
/// `default`, which holds the default nodes and the stream pins.
pub fn is_default_metadata(props: &Props) -> (r: bool)
    ensures
        r == (dict_get(props@, "metadata.name"@) == Some("default"@)),
{
    match props.get("metadata.name") {
        Some(name) => str_eq(name, "default"),
        None => false,
    }
}

/// The node kind a registry announcement's `media.class` names.
pub open spec fn announced_kind(p: Seq<(Seq<char>, Seq<char>)>) -> Option<NodeType> {
    match dict_get(p, "media.class"@) {
        Some(class) => node_type_of(class),
        None => None,
    }
}

/// The audio part of what is kept from PipeWire.
pub struct PipewireState {
    pub audio: AudioState,
}

impl PipewireState {
    /// An empty graph.
    pub fn new() -> (r: PipewireState)
        ensures
            r.audio.node_map().is_empty(),
            r.audio.default_map().is_empty(),
            r.audio.target_map().is_empty(),
            r.audio.wf(),
    {
        PipewireState { audio: AudioState::new() }
    }
}

/// Where a node's volume and mute are written: on the node itself, or on the
/// route of the card profile device it plays through.
#[derive(Clone, Copy, Debug, PartialEq, Eq, Structural)]
pub enum Target {
    Node(u32),
    Route { node: u32, device: u32, profile_device: i32 },
}

/// A change asked of PipeWire. Volumes are `f32` bit patterns.
#[derive(Debug)]
#[allow(inconsistent_fields)]
pub enum Command {
    SetDefault { kind: NodeType, name: String },
    SetTarget { node: u32, name: Option<String> },
    SetVolumes { target: Target, volumes: Vec<u32> },
    SetMute { target: Target, mute: bool },
}

/// The node a command was asked for is not in the graph.
#[derive(Debug, PartialEq, Eq, Structural)]
pub struct NoSuchNode;

/// The commands the UI can ask of the audio graph.
pub struct PipewireAudio<'s>(pub &'s AudioState);

/// How many channels a volume write to `n` sets: its channels, at least one.
pub open spec fn channel_count(n: AudioNode) -> nat {
    if n.volumes@.len() > 1 {
        n.volumes@.len()
    } else {
        1
    }
}

/// `r` is what setting node `id` of `s` to `volume` asks: the command that
/// writes `volume` to each of its channels where its volume is written, or
/// the error that it is not there.
pub open spec fn volume_set(s: AudioState, id: u32, volume: u32, r: Result<Command, NoSuchNode>) -> bool {
    match r {
        Ok(Command::SetVolumes { target, volumes }) => s.node_map().contains_key(id) && target
            == props_target_of(id, s.node_map()[id]) && volumes@ == Seq::new(
            channel_count(s.node_map()[id]),
            |i: int| volume,
        ),
        Ok(_) => false,
        Err(_) => !s.node_map().contains_key(id),
    }
}

/// Setting a node's volume writes every one of its channels, and only its
/// channels: as many values as it reports volumes (one when it reports
/// none), each the volume asked for. A node not in the graph is an error.
pub proof fn lemma_set_volume_writes_every_channel(
    s: AudioState,
    id: u32,
    volume: u32,
    r: Result<Command, NoSuchNode>,
)
    requires
        volume_set(s, id, volume, r),
    ensures
        s.node_map().contains_key(id) ==> (r matches Ok(Command::SetVolumes { volumes, .. })
            && volumes@.len() == (if s.node_map()[id].volumes@.len() == 0 {
            1
        } else {
            s.node_map()[id].volumes@.len()
        }) && forall|i: int| 0 <= i < volumes@.len() ==> volumes@[i] == volume),
        !s.node_map().contains_key(id) ==> r is Err,
{
}

/// Where `n`, stored under `id`, has its volume and mute written.
pub open spec fn props_target_of(id: u32, n: AudioNode) -> Target {
    match (n.device, n.profile_device) {
        (Some(device), Some(profile_device)) => Target::Route { node: id, device, profile_device },
        _ => Target::Node(id),
    }
}

impl<'s> PipewireAudio<'s> {
    /// A copy of node `id`.
    pub fn node(&self, id: u32) -> (r: Option<AudioNode>)
        ensures
            match r {
                Some(n) => self.0.node_map().contains_key(id) && same_node(n, self.0.node_map()[id]),
                None => !self.0.node_map().contains_key(id),
            },
    {
        self.0.node(id)
    }

    /// Makes node `id` the default of its kind, by name.
    pub fn set_default(&self, id: u32) -> (r: Result<Command, NoSuchNode>)
        ensures
            match r {
                Ok(Command::SetDefault { kind, name }) => self.0.node_map().contains_key(id) && kind
                    == self.0.node_map()[id].kind && name@ == self.0.node_map()[id].name@,
                Ok(_) => false,
                Err(_) => !self.0.node_map().contains_key(id),
            },
    {
        match self.node(id) {
            Some(node) => Ok(Command::SetDefault { kind: node.kind, name: node.name }),
            None => Err(NoSuchNode),
        }
    }

    /// Pins `stream` to `sink`, by the sink's name.
    pub fn set_target(&self, stream: u32, sink: u32) -> (r: Result<Command, NoSuchNode>)
        ensures
            match r {
                Ok(Command::SetTarget { node, name: Some(name) }) => self.0.node_map().contains_key(
                    sink,
                ) && node == stream && name@ == self.0.node_map()[sink].name@,
                Ok(_) => false,
                Err(_) => !self.0.node_map().contains_key(sink),
            },
    {
        match self.node(sink) {
            Some(node) => Ok(Command::SetTarget { node: stream, name: Some(node.name) }),
            None => Err(NoSuchNode),
        }
    }

    /// Unpins `stream`.
    pub fn reset_target(&self, stream: u32) -> (r: Command)
        ensures
            r matches Command::SetTarget { node, name: None } && node == stream,
    {
        Command::SetTarget { node: stream, name: None }
    }

    /// Sets the channel volumes of node `id`.
    pub fn set_volumes(&self, id: u32, volumes: Vec<u32>) -> (r: Result<Command, NoSuchNode>)
        ensures
            match r {
                Ok(Command::SetVolumes { target, volumes: v }) => self.0.node_map().contains_key(id)
                    && target == props_target_of(id, self.0.node_map()[id]) && v@ == volumes@,
                Ok(_) => false,
                Err(_) => !self.0.node_map().contains_key(id),
            },
    {
        let target = match self.props_target(id) {
            Ok(target) => target,
            Err(e) => return Err(e),
        };
        Ok(Command::SetVolumes { target, volumes })
    }

    /// Mutes or unmutes node `id`.
    pub fn set_mute(&self, id: u32, mute: bool) -> (r: Result<Command, NoSuchNode>)
        ensures
            match r {
                Ok(Command::SetMute { target, mute: m }) => self.0.node_map().contains_key(id)
                    && target == props_target_of(id, self.0.node_map()[id]) && m == mute,
                Ok(_) => false,
                Err(_) => !self.0.node_map().contains_key(id),
            },
    {
        let target = match self.props_target(id) {
            Ok(target) => target,
            Err(e) => return Err(e),
        };
        Ok(Command::SetMute { target, mute })
    }

    /// Sets every channel of node `id` to `volume`, one channel when the
    /// node reports none.
    pub fn set_volume(&self, id: u32, volume: u32) -> (r: Result<Command, NoSuchNode>)
        ensures
            volume_set(*self.0, id, volume, r),
    {
        let channels: usize = match self.node(id) {
            Some(node) => if node.volumes.len() > 1 {
                node.volumes.len()
            } else {
                1
            },
            None => 1,
        };
        let mut volumes: Vec<u32> = Vec::new();
        let mut i: usize = 0;
        while i < channels
            invariant
                i <= channels,
                volumes@.len() == i,
                forall|j: int| 0 <= j < i ==> volumes@[j] == volume,
            decreases channels - i,
        {
            volumes.push(volume);
            i = i + 1;
        }
        let r = self.set_volumes(id, volumes);
        proof {
            if self.0.node_map().contains_key(id) {
                assert(volumes@ =~= Seq::new(channel_count(self.0.node_map()[id]), |i: int| volume));
            }
        }
        r
    }

    /// Where node `id` has its volume and mute written.
    fn props_target(&self, id: u32) -> (r: Result<Target, NoSuchNode>)
        ensures
            match r {
                Ok(t) => self.0.node_map().contains_key(id) && t == props_target_of(
                    id,
                    self.0.node_map()[id],
                ),
                Err(_) => !self.0.node_map().contains_key(id),
            },
    {
        let node = match self.node(id) {
            Some(node) => node,
            None => return Err(NoSuchNode),
        };
        match (node.device, node.profile_device) {
            (Some(device), Some(profile_device)) => Ok(Target::Route { node: id, device, profile_device }),
            _ => Ok(Target::Node(id)),
        }
    }
}

/// Once a node is gone from a graph, nothing that graph reports names it:
/// not the list of its kind, not the default of any kind, and not the pin of
/// any stream.
pub proof fn lemma_removed_node_named_nowhere(
    s: AudioState,
    id: u32,
    kind: NodeType,
    listing: Seq<AudioNode>,
    default: Option<AudioNode>,
    targets: Map<u32, u32>,
)
    requires
        s.wf(),
        !s.node_map().contains_key(id),
    ensures
        s.is_listing(kind, listing) ==> forall|i: int| 0 <= i < listing.len() ==> listing[i].id != id,
        s.is_default_report(kind, default) && default is Some ==> default->0.id != id,
        s.is_targets_report(targets) ==> forall|t: u32| #[trigger]
            targets.contains_key(t) ==> targets[t] != id,
{
    if s.is_default_report(kind, default) && default is Some {
        let k = choose|k: u32| #[trigger] s.names_default(kind, k) && same_node(default->0, s.node_map()[k]);
        assert(s.node_map().contains_key(k));
    }
    if s.is_targets_report(targets) {
        assert forall|t: u32| #[trigger] targets.contains_key(t) implies targets[t] != id by {
            let k = choose|k: u32| #[trigger] s.resolves(t, k) && s.node_map()[k].id == targets[t];
            assert(s.node_map().contains_key(k));
        }
    }
}

/// A property of a device's `Route` parameter, as PipeWire reports it.
pub enum RouteParam {
    /// `SPA_PARAM_ROUTE_index`.
    Index(i32),
    /// `SPA_PARAM_ROUTE_device`: the card profile device the route serves.
    Device(i32),
    /// Any other property.
    Other,
}

/// The route index the last `Index` of `ps` gives, if any.
pub open spec fn route_index(ps: Seq<RouteParam>) -> Option<i32>
    decreases ps.len(),
{
    if ps.len() == 0 {
        None
    } else {
        match ps.last() {
            RouteParam::Index(i) => Some(i),
            _ => route_index(ps.drop_last()),
        }
    }
}

/// The profile device the last `Device` of `ps` gives, if any.
pub open spec fn route_device(ps: Seq<RouteParam>) -> Option<i32>
    decreases ps.len(),
{
    if ps.len() == 0 {
        None
    } else {
        match ps.last() {
            RouteParam::Device(d) => Some(d),
            _ => route_device(ps.drop_last()),
        }
    }
}

/// The profile device a `Route` parameter serves and the index of the route
/// that serves it, when it gives both.
pub fn route_entry(params: &Vec<RouteParam>) -> (r: Option<(i32, i32)>)
    ensures
        r == match (route_device(params@), route_index(params@)) {
            (Some(d), Some(i)) => Some((d, i)),
            _ => None,
        },
{
    let mut index: Option<i32> = None;
    let mut profile_device: Option<i32> = None;
    let mut i: usize = 0;
    while i < params.len()
        invariant
            i <= params@.len(),
            index == route_index(params@.take(i as int)),
            profile_device == route_device(params@.take(i as int)),
        decreases params@.len() - i,
    {
        assert(params@.take(i + 1).drop_last() =~= params@.take(i as int));
        match &params[i] {
            RouteParam::Index(v) => index = Some(*v),
            RouteParam::Device(v) => profile_device = Some(*v),
            RouteParam::Other => {},
        }
        i = i + 1;
    }
    assert(params@.take(params@.len() as int) =~= params@);
    match (profile_device, index) {
        (Some(d), Some(i)) => Some((d, i)),
        _ => None,
    }
}

/// The id of a sink in `snap` that `pin` names, if one does.
fn find_sink(snap: &Vec<(u32, AudioNode)>, pin: &str, Ghost(m): Ghost<Map<u32, AudioNode>>) -> (r: Option<u32>)
    requires
        forall|a: int|
            0 <= a < snap@.len() ==> m.contains_key(#[trigger] snap@[a].0) && same_node(
                snap@[a].1,
                m[snap@[a].0],
            ),
        forall|k: u32| #[trigger]
            m.contains_key(k) ==> exists|a: int| 0 <= a < snap@.len() && snap@[a].0 == k,
    ensures
        match r {
            Some(id) => exists|k: u32| m.contains_key(k) && pin_names(m[k], pin@) && m[k].id == id,
            None => forall|k: u32| m.contains_key(k) ==> !pin_names(m[k], pin@),
        },
{
    let serial = parse_u64(pin);
    let mut i: usize = 0;
    while i < snap.len()
        invariant
            i <= snap@.len(),
            match serial {
                Some(v) => parse_unsigned(pin@, u64::MAX as int) == Some(v as int),
                None => parse_unsigned(pin@, u64::MAX as int) is None,
            },
            forall|a: int|
                0 <= a < snap@.len() ==> m.contains_key(#[trigger] snap@[a].0) && same_node(
                    snap@[a].1,
                    m[snap@[a].0],
                ),
            forall|a: int| 0 <= a < i ==> !pin_names(#[trigger] snap@[a].1, pin@),
        decreases snap@.len() - i,
    {
        let node = &snap[i].1;
        let by_serial = match serial {
            Some(v) => v == node.serial,
            None => false,
        };
        if node.kind == NodeType::Sink && (by_serial || str_eq(node.name.as_str(), pin)) {
            assert(pin_names(m[snap@[i as int].0], pin@));
            return Some(node.id);
        }
        i = i + 1;
    }
    assert forall|k: u32| m.contains_key(k) implies !pin_names(m[k], pin@) by {
        let a = choose|a: int| 0 <= a < snap@.len() && snap@[a].0 == k;
        assert(!pin_names(snap@[a].1, pin@));
    }
    None
}

} // verus!
