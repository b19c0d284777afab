//! The audio reads scripts can make, and the node record they read.

use vstd::prelude::*;

use crate::audio::{string_views, AudioNode, NodeType};
use crate::icons::opt_view;

verus! {

/// A slice of audio state a script can read.
#[derive(Clone, Copy, Debug, PartialEq, Eq, Hash, Structural)]
pub enum Updates {
    Sinks,
    Sources,
    Streams,
    DefaultSink,
    DefaultSource,
    Targets,
}

/// An audio node as scripts see it. Volumes are `f32` bit patterns; `volume`
/// is the first channel's, or `0.0` for a node that reports none.
#[derive(Debug)]
pub struct Node {
    pub id: u32,
    pub serial: u64,
    pub kind: NodeType,
    pub name: String,
    pub description: String,
    pub nickname: Option<String>,
    pub volume: u32,
    pub volumes: Vec<u32>,
    pub mute: bool,
    pub app: Vec<String>,
}

/// `s` is what scripts see of `n`.
pub open spec fn node_seen(n: AudioNode, s: Node) -> bool {
    &&& s.id == n.id
    &&& s.serial == n.serial
    &&& s.kind == n.kind
    &&& s.name@ == n.name@
    &&& s.description@ == n.description@
    &&& opt_view(s.nickname) == opt_view(n.nickname)
    &&& s.volume == if n.volumes@.len() > 0 {
        n.volumes@[0]
    } else {
        0u32
    }
    &&& s.volumes@ == n.volumes@
    &&& s.mute == n.mute
    &&& string_views(s.app@) == string_views(n.app@)
}

impl Node {
    /// What scripts see of `node`.
    pub fn from_node(node: &AudioNode) -> (r: Node)
        ensures
            node_seen(*node, r),
    {
        let volume = if node.volumes.len() > 0 {
            node.volumes[0]
        } else {
            0
        };
        let nickname = match &node.nickname {
            Some(nick) => Some(nick.clone()),
            None => None,
        };
        let volumes = node.volumes.clone();
        assert(volumes@ =~= node.volumes@);
        let app = node.app.clone();
        assert(string_views(app@) =~= string_views(node.app@));
        Node {
            id: node.id,
            serial: node.serial,
            kind: node.kind,
            name: node.name.clone(),
            description: node.description.clone(),
            nickname,
            volume,
            volumes,
            mute: node.mute,
            app,
        }
    }
}

/// What scripts see of each of `list`.
pub fn nodes(list: &[AudioNode]) -> (r: Vec<Node>)
    ensures
        r@.len() == list@.len(),
        forall|i: int| 0 <= i < r@.len() ==> node_seen(list@[i], #[trigger] r@[i]),
{
    let mut out: Vec<Node> = Vec::new();
    let mut i: usize = 0;
    while i < list.len()
        invariant
            i <= list@.len(),
            out@.len() == i,
            forall|j: int| 0 <= j < i ==> node_seen(list@[j], #[trigger] out@[j]),
        decreases list@.len() - i,
    {
        out.push(Node::from_node(&list[i]));
        i = i + 1;
    }
    out
}

} // verus!
