//! The audio graph as PipeWire reports it: nodes with their properties and
//! parameters, the default sink and source, and the sink each stream is
//! pinned to.

use vstd::prelude::*;

use crate::icons::{opt_seq, opt_view};
use crate::text::{
    parse_i32, parse_signed, parse_u32, parse_u64, parse_unsigned, str_eq,
};

verus! {

/// What kind of audio node a PipeWire `media.class` names.
#[derive(Clone, Copy, Debug, PartialEq, Eq, Hash, Structural)]
pub enum NodeType {
    Sink,
    Source,
    Stream,
}

/// A `media.class` that names no audio node kind.
#[derive(Debug)]
pub struct InvalidNodeType {
    pub class: String,
}

/// The node kind a `media.class` names.
pub open spec fn node_type_of(class: Seq<char>) -> Option<NodeType> {
    if class == "Audio/Sink"@ {
        Some(NodeType::Sink)
    } else if class == "Audio/Source"@ {
        Some(NodeType::Source)
    } else if class == "Stream/Output/Audio"@ {
        Some(NodeType::Stream)
    } else {
        None
    }
}

impl NodeType {
    /// Reads a `media.class`.
    pub fn from_str(s: &str) -> (r: Result<NodeType, InvalidNodeType>)
        ensures
            match r {
                Ok(kind) => node_type_of(s@) == Some(kind),
                Err(e) => node_type_of(s@) is None && e.class@ == s@,
            },
    {
        if str_eq(s, "Audio/Sink") {
            Ok(NodeType::Sink)
        } else if str_eq(s, "Audio/Source") {
            Ok(NodeType::Source)
        } else if str_eq(s, "Stream/Output/Audio") {
            Ok(NodeType::Stream)
        } else {
            Err(InvalidNodeType { class: String::from_str(s) })
        }
    }
}

/// The views of a list of key/value pairs.
pub open spec fn entry_views(s: Seq<(String, String)>) -> Seq<(Seq<char>, Seq<char>)> {
    s.map_values(|e: (String, String)| (e.0@, e.1@))
}

/// The value of the first entry named `key`.
pub open spec fn dict_get(d: Seq<(Seq<char>, Seq<char>)>, key: Seq<char>) -> Option<Seq<char>>
    decreases d.len(),
{
    if d.len() == 0 {
        None
    } else if d[0].0 == key {
        Some(d[0].1)
    } else {
        dict_get(d.drop_first(), key)
    }
}

/// A PipeWire property dictionary: string keys to string values.
pub struct Props {
    entries: Vec<(String, String)>,
}

impl View for Props {
    type V = Seq<(Seq<char>, Seq<char>)>;

    closed spec fn view(&self) -> Seq<(Seq<char>, Seq<char>)> {
        entry_views(self.entries@)
    }
}

impl Props {
    /// A dictionary of the given entries, in order.
    pub fn new(entries: Vec<(String, String)>) -> (r: Props)
        ensures
            r@ == entry_views(entries@),
    {
        Props { entries }
    }

    /// The value of `key`, as `spa_dict_lookup` finds it: the first entry
    /// with that key.
    pub fn get(&self, key: &str) -> (r: Option<&str>)
        ensures
            match r {
                Some(v) => dict_get(self@, key@) == Some(v@),
                None => dict_get(self@, key@) is None,
            },
    {
        let ghost d = self@;
        let mut i: usize = 0;
        assert(d.subrange(0, d.len() as int) =~= d);
        while i < self.entries.len()
            invariant
                d == entry_views(self.entries@),
                i <= self.entries@.len(),
                dict_get(d, key@) == dict_get(d.subrange(i as int, d.len() as int), key@),
            decreases self.entries@.len() - i,
        {
            let entry = &self.entries[i];
            let ghost rest = d.subrange(i as int, d.len() as int);
            assert(rest[0] == (entry.0@, entry.1@));
            assert(rest.drop_first() =~= d.subrange(i + 1, d.len() as int));
            if str_eq(entry.0.as_str(), key) {
                return Some(entry.1.as_str());
            }
            i = i + 1;
        }
        None
    }
}


/// A node field a property value is read into.
pub trait Field: Sized {
    type V;

    /// What the field holds.
    spec fn field_view(&self) -> Self::V;

    /// What a property value reads as, if it reads at all.
    spec fn parse_spec(s: Seq<char>) -> Option<Self::V>;

    /// Reads a property value.
    fn parse(s: &str) -> (r: Option<Self>)
        ensures
            match r {
                Some(v) => Self::parse_spec(s@) == Some(v.field_view()),
                None => Self::parse_spec(s@) is None,
            };

    /// Whether two values are the same.
    fn same(&self, other: &Self) -> (r: bool)
        ensures
            r == (self.field_view() == other.field_view());
}

impl Field for u64 {
    type V = u64;

    open spec fn field_view(&self) -> u64 {
        *self
    }

    open spec fn parse_spec(s: Seq<char>) -> Option<u64> {
        match parse_unsigned(s, u64::MAX as int) {
            Some(v) => Some(v as u64),
            None => None,
        }
    }

    fn parse(s: &str) -> (r: Option<u64>) {
        parse_u64(s)
    }

    fn same(&self, other: &u64) -> (r: bool) {
        *self == *other
    }
}

impl Field for u32 {
    type V = u32;

    open spec fn field_view(&self) -> u32 {
        *self
    }

    open spec fn parse_spec(s: Seq<char>) -> Option<u32> {
        match parse_unsigned(s, u32::MAX as int) {
            Some(v) => Some(v as u32),
            None => None,
        }
    }

    fn parse(s: &str) -> (r: Option<u32>) {
        parse_u32(s)
    }

    fn same(&self, other: &u32) -> (r: bool) {
        *self == *other
    }
}

impl Field for i32 {
    type V = i32;

    open spec fn field_view(&self) -> i32 {
        *self
    }

    open spec fn parse_spec(s: Seq<char>) -> Option<i32> {
        match parse_signed(s, i32::MIN as int, i32::MAX as int) {
            Some(v) => Some(v as i32),
            None => None,
        }
    }

    fn parse(s: &str) -> (r: Option<i32>) {
        parse_i32(s)
    }

    fn same(&self, other: &i32) -> (r: bool) {
        *self == *other
    }
}

impl Field for String {
    type V = Seq<char>;

    open spec fn field_view(&self) -> Seq<char> {
        self@
    }

    open spec fn parse_spec(s: Seq<char>) -> Option<Seq<char>> {
        Some(s)
    }

    fn parse(s: &str) -> (r: Option<String>) {
        Some(String::from_str(s))
    }

    fn same(&self, other: &String) -> (r: bool) {
        str_eq(self.as_str(), other.as_str())
    }
}

/// What a property value read into a field leaves there.
pub open spec fn updated<V>(old: V, read: Option<V>) -> V {
    match read {
        Some(v) => v,
        None => old,
    }
}

/// The parsed value of an optional property.
pub open spec fn read_field<T: Field>(value: Option<Seq<char>>) -> Option<T::V> {
    match value {
        Some(s) => T::parse_spec(s),
        None => None,
    }
}

/// The view of an optional field.
pub open spec fn opt_field_view<T: Field>(o: Option<T>) -> Option<T::V> {
    match o {
        Some(v) => Some(v.field_view()),
        None => None,
    }
}

/// Reads `value` into `field` when it parses; says whether the field changed.
pub fn update<T: Field>(field: &mut T, value: Option<&str>) -> (changed: bool)
    ensures
        final(field).field_view() == updated(
            old(field).field_view(),
            read_field::<T>(opt_str_view(value)),
        ),
        changed == (final(field).field_view() != old(field).field_view()),
        !changed ==> *final(field) == *old(field),
{
    let value = match value {
        Some(value) => match T::parse(value) {
            Some(v) => v,
            None => return false,
        },
        None => return false,
    };
    if field.same(&value) {
        return false;
    }
    *field = value;
    true
}

/// Reads `value` into an optional `field` when it parses; says whether the
/// field changed. A value that does not parse clears nothing.
pub fn update_optional<T: Field>(field: &mut Option<T>, value: Option<&str>) -> (changed: bool)
    ensures
        opt_field_view(*final(field)) == match read_field::<T>(opt_str_view(value)) {
            Some(v) => Some(v),
            None => opt_field_view(*old(field)),
        },
        changed == (opt_field_view(*final(field)) != opt_field_view(*old(field))),
        !changed ==> *final(field) == *old(field),
{
    let value = match value {
        Some(value) => match T::parse(value) {
            Some(v) => v,
            None => return false,
        },
        None => return false,
    };
    let same = match field {
        Some(current) => current.same(&value),
        None => false,
    };
    if same {
        return false;
    }
    *field = Some(value);
    true
}

/// The view of an optional string slice.
pub open spec fn opt_str_view(o: Option<&str>) -> Option<Seq<char>> {
    match o {
        Some(s) => Some(s@),
        None => None,
    }
}


/// One audio node. Volumes are kept as the bit patterns of their `f32`
/// values, one per channel.
#[derive(Clone, Debug)]
pub struct AudioNode {
    pub id: u32,
    pub serial: u64,
    pub kind: NodeType,
    pub name: String,
    pub description: String,
    pub nickname: Option<String>,
    pub device: Option<u32>,
    pub profile_device: Option<i32>,
    pub volumes: Vec<u32>,
    pub mute: bool,
    pub app: Vec<String>,
}

/// The views of a list of strings.
pub open spec fn string_views(s: Seq<String>) -> Seq<Seq<char>> {
    s.map_values(|x: String| x@)
}

/// Two nodes hold the same values.
pub open spec fn same_node(a: AudioNode, b: AudioNode) -> bool {
    &&& a.id == b.id
    &&& a.serial == b.serial
    &&& a.kind == b.kind
    &&& a.name@ == b.name@
    &&& a.description@ == b.description@
    &&& opt_view(a.nickname) == opt_view(b.nickname)
    &&& a.device == b.device
    &&& a.profile_device == b.profile_device
    &&& a.volumes@ == b.volumes@
    &&& a.mute == b.mute
    &&& string_views(a.app@) == string_views(b.app@)
}

/// What a node's application is known by: its icon name, id, name and
/// binary, those of them the properties hold, in that order.
pub open spec fn app_spec(p: Seq<(Seq<char>, Seq<char>)>) -> Seq<Seq<char>> {
    opt_seq(dict_get(p, "application.icon-name"@)) + opt_seq(dict_get(p, "application.id"@))
        + opt_seq(dict_get(p, "application.name"@)) + opt_seq(
        dict_get(p, "application.process.binary"@),
    )
}

/// The first of a node's description, media name and application name.
pub open spec fn label_spec(p: Seq<(Seq<char>, Seq<char>)>) -> Option<Seq<char>> {
    match dict_get(p, "node.description"@) {
        Some(d) => Some(d),
        None => match dict_get(p, "media.name"@) {
            Some(m) => Some(m),
            None => dict_get(p, "application.name"@),
        },
    }
}

fn push_prop(out: &mut Vec<String>, props: &Props, key: &str)
    ensures
        string_views(final(out)@) == string_views(old(out)@) + opt_seq(dict_get(props@, key@)),
{
    let ghost before = string_views(out@);
    match props.get(key) {
        Some(v) => {
            out.push(String::from_str(v));
            assert(string_views(out@) =~= before + seq![v@]);
        },
        None => {
            assert(string_views(out@) =~= before + Seq::<Seq<char>>::empty());
        },
    }
}

/// What a node's application is known by.
pub fn app(props: &Props) -> (r: Vec<String>)
    ensures
        string_views(r@) == app_spec(props@),
{
    let mut out: Vec<String> = Vec::new();
    assert(string_views(out@) =~= Seq::<Seq<char>>::empty());
    push_prop(&mut out, props, "application.icon-name");
    push_prop(&mut out, props, "application.id");
    push_prop(&mut out, props, "application.name");
    push_prop(&mut out, props, "application.process.binary");
    assert(Seq::<Seq<char>>::empty() + opt_seq(dict_get(props@, "application.icon-name"@))
        + opt_seq(dict_get(props@, "application.id"@)) + opt_seq(
        dict_get(props@, "application.name"@),
    ) + opt_seq(dict_get(props@, "application.process.binary"@)) =~= app_spec(props@));
    out
}

/// The first of a node's description, media name and application name.
pub fn label(props: &Props) -> (r: Option<&str>)
    ensures
        opt_str_view(r) == label_spec(props@),
{
    match props.get("node.description") {
        Some(d) => Some(d),
        None => match props.get("media.name") {
            Some(m) => Some(m),
            None => props.get("application.name"),
        },
    }
}

/// Whether two string lists hold the same strings.
fn strings_eq(a: &Vec<String>, b: &Vec<String>) -> (r: bool)
    ensures
        r == (string_views(a@) == string_views(b@)),
{
    if a.len() != b.len() {
        assert(string_views(a@).len() != string_views(b@).len());
        return false;
    }
    let mut i: usize = 0;
    while i < a.len()
        invariant
            a@.len() == b@.len(),
            i <= a@.len(),
            forall|j: int| 0 <= j < i ==> a@[j]@ == b@[j]@,
        decreases a@.len() - i,
    {
        if !str_eq(a[i].as_str(), b[i].as_str()) {
            assert(string_views(a@)[i as int] != string_views(b@)[i as int]);
            return false;
        }
        i = i + 1;
    }
    assert(string_views(a@) =~= string_views(b@));
    true
}

/// A node parameter PipeWire reports in a `Props` object.
pub enum NodeParam {
    /// `SPA_PROP_channelVolumes`, as `f32` bit patterns.
    ChannelVolumes(Vec<u32>),
    /// `SPA_PROP_mute`.
    Mute(bool),
    /// Any other property.
    Other,
}

/// The volumes the last `ChannelVolumes` of `ps` sets, else `old`.
pub open spec fn params_volumes(ps: Seq<NodeParam>, old: Seq<u32>) -> Seq<u32>
    decreases ps.len(),
{
    if ps.len() == 0 {
        old
    } else {
        match ps.last() {
            NodeParam::ChannelVolumes(v) => v@,
            _ => params_volumes(ps.drop_last(), old),
        }
    }
}

/// The mute the last `Mute` of `ps` sets, else `old`.
pub open spec fn params_mute(ps: Seq<NodeParam>, old: bool) -> bool
    decreases ps.len(),
{
    if ps.len() == 0 {
        old
    } else {
        match ps.last() {
            NodeParam::Mute(m) => m,
            _ => params_mute(ps.drop_last(), old),
        }
    }
}

/// `ps` sets a volume or a mute.
pub open spec fn params_touch(ps: Seq<NodeParam>) -> bool {
    exists|i: int| 0 <= i < ps.len() && !(ps[i] is Other)
}

/// `n` is the node the registry announced as `id`, of `kind`, with the
/// properties `p`: it has `p`'s `node.name`, a serial of 0 when `p` has none
/// that parses, the first label `p` has or else its name, and no volume,
/// mute or profile device read yet.
pub open spec fn registered(id: u32, kind: NodeType, p: Seq<(Seq<char>, Seq<char>)>, n: AudioNode) -> bool {
    &&& dict_get(p, "node.name"@) == Some(n.name@)
    &&& n.id == id
    &&& n.kind == kind
    &&& n.serial == updated(0u64, read_field::<u64>(dict_get(p, "object.serial"@)))
    &&& n.description@ == match label_spec(p) {
        Some(l) => l,
        None => n.name@,
    }
    &&& opt_view(n.nickname) == dict_get(p, "node.nick"@)
    &&& n.device == read_field::<u32>(dict_get(p, "device.id"@))
    &&& n.profile_device is None
    &&& !n.mute
    &&& n.volumes@ == seq![0u32]
    &&& string_views(n.app@) == app_spec(p)
}

/// `b` is `a` after an info event with the properties `p`: what `p` holds
/// and parses replaces what `a` had, what it leaves out or cannot parse is
/// kept, and an empty application list replaces nothing.
pub open spec fn props_applied(a: AudioNode, b: AudioNode, p: Seq<(Seq<char>, Seq<char>)>) -> bool {
    &&& b.id == a.id
    &&& b.kind == a.kind
    &&& b.volumes@ == a.volumes@
    &&& b.mute == a.mute
    &&& b.serial == updated(a.serial, read_field::<u64>(dict_get(p, "object.serial"@)))
    &&& b.name@ == updated(a.name@, dict_get(p, "node.name"@))
    &&& b.description@ == updated(a.description@, label_spec(p))
    &&& opt_view(b.nickname) == match dict_get(p, "node.nick"@) {
        Some(n) => Some(n),
        None => opt_view(a.nickname),
    }
    &&& b.device == match read_field::<u32>(dict_get(p, "device.id"@)) {
        Some(d) => Some(d),
        None => a.device,
    }
    &&& b.profile_device == match read_field::<i32>(dict_get(p, "card.profile.device"@)) {
        Some(d) => Some(d),
        None => a.profile_device,
    }
    &&& string_views(b.app@) == if app_spec(p).len() > 0 {
        app_spec(p)
    } else {
        string_views(a.app@)
    }
}

/// `b` is `a` after a parameter object with the properties `ps`: the last
/// volumes and the last mute it sets, nothing else touched.
pub open spec fn params_applied(a: AudioNode, b: AudioNode, ps: Seq<NodeParam>) -> bool {
    &&& b.volumes@ == params_volumes(ps, a.volumes@)
    &&& b.mute == params_mute(ps, a.mute)
    &&& b.id == a.id
    &&& b.serial == a.serial
    &&& b.kind == a.kind
    &&& b.name@ == a.name@
    &&& b.description@ == a.description@
    &&& opt_view(b.nickname) == opt_view(a.nickname)
    &&& b.device == a.device
    &&& b.profile_device == a.profile_device
    &&& string_views(b.app@) == string_views(a.app@)
}

/// A node is described by its `node.description` whenever the properties
/// hold one; else by its `media.name`, else by its `application.name`. This
/// holds of a node the registry announces (which falls back on its name
/// when none of the three is there) and of one an info event updates
/// (which keeps its description then).
pub proof fn lemma_description_precedence(
    id: u32,
    kind: NodeType,
    p: Seq<(Seq<char>, Seq<char>)>,
    before: AudioNode,
    n: AudioNode,
)
    ensures
        registered(id, kind, p, n) ==> n.description@ == match dict_get(p, "node.description"@) {
            Some(d) => d,
            None => match dict_get(p, "media.name"@) {
                Some(m) => m,
                None => match dict_get(p, "application.name"@) {
                    Some(a) => a,
                    None => n.name@,
                },
            },
        },
        props_applied(before, n, p) ==> n.description@ == match dict_get(p, "node.description"@) {
            Some(d) => d,
            None => match dict_get(p, "media.name"@) {
                Some(m) => m,
                None => match dict_get(p, "application.name"@) {
                    Some(a) => a,
                    None => before.description@,
                },
            },
        },
{
}

impl AudioNode {
    /// A node from its registry properties; `None` without a `node.name`.
    pub fn new(id: u32, kind: NodeType, props: &Props) -> (r: Option<AudioNode>)
        ensures
            match r {
                None => dict_get(props@, "node.name"@) is None,
                Some(n) => registered(id, kind, props@, n),
            },
    {
        let name = match props.get("node.name") {
            Some(name) => String::from_str(name),
            None => return None,
        };
        let serial = match props.get("object.serial") {
            Some(s) => match parse_u64(s) {
                Some(v) => v,
                None => 0,
            },
            None => 0,
        };
        let description = match label(props) {
            Some(l) => String::from_str(l),
            None => name.clone(),
        };
        let nickname = match props.get("node.nick") {
            Some(nick) => Some(String::from_str(nick)),
            None => None,
        };
        let device = match props.get("device.id") {
            Some(d) => parse_u32(d),
            None => None,
        };
        let mut volumes: Vec<u32> = Vec::new();
        volumes.push(0);
        assert(volumes@ =~= seq![0u32]);
        Some(AudioNode {
            id,
            serial,
            kind,
            description,
            name,
            nickname,
            device,
            profile_device: None,
            mute: false,
            volumes,
            app: app(props),
        })
    }

    /// Reads what an info event reports into the node; says whether anything
    /// changed. A property the event leaves out, or one that does not parse,
    /// clears nothing; an empty application list replaces nothing.
    pub fn update_props(&mut self, props: &Props) -> (changed: bool)
        ensures
            props_applied(*old(self), *final(self), props@),
            changed == !same_node(*old(self), *final(self)),
    {
        let c1 = update(&mut self.serial, props.get("object.serial"));
        let c2 = update(&mut self.name, props.get("node.name"));
        let c3 = update(&mut self.description, label(props));
        let c4 = update_optional(&mut self.nickname, props.get("node.nick"));
        let c5 = update_optional(&mut self.device, props.get("device.id"));
        let c6 = update_optional(&mut self.profile_device, props.get("card.profile.device"));
        let app = app(props);
        let mut c7 = false;
        if app.len() > 0 && !strings_eq(&app, &self.app) {
            self.app = app;
            c7 = true;
        }
        assert(opt_field_view(self.nickname) == opt_view(self.nickname));
        assert(opt_field_view(old(self).nickname) == opt_view(old(self).nickname));
        c1 || c2 || c3 || c4 || c5 || c6 || c7
    }

    /// Reads a `Props` parameter object into the node; says whether it set a
    /// volume or a mute, changed or not.
    pub fn update_params(&mut self, params: &Vec<NodeParam>) -> (changed: bool)
        ensures
            params_applied(*old(self), *final(self), params@),
            changed == params_touch(params@),
            !changed ==> *final(self) == *old(self),
    {
        let mut changed = false;
        let mut i: usize = 0;
        while i < params.len()
            invariant
                i <= params@.len(),
                self.volumes@ == params_volumes(params@.take(i as int), old(self).volumes@),
                self.mute == params_mute(params@.take(i as int), old(self).mute),
                changed == params_touch(params@.take(i as int)),
                !changed ==> *self == *old(self),
                self.id == old(self).id,
                self.serial == old(self).serial,
                self.kind == old(self).kind,
                self.name == old(self).name,
                self.description == old(self).description,
                self.nickname == old(self).nickname,
                self.device == old(self).device,
                self.profile_device == old(self).profile_device,
                self.app == old(self).app,
            decreases params@.len() - i,
        {
            let ghost pre = params@.take(i as int);
            let ghost post = params@.take(i + 1);
            assert(post.drop_last() =~= pre);
            assert(post.last() == params@[i as int]);
            match &params[i] {
                NodeParam::ChannelVolumes(volumes) => {
                    self.volumes = volumes.clone();
                    changed = true;
                    assert(!(post[i as int] is Other));
                },
                NodeParam::Mute(mute) => {
                    self.mute = *mute;
                    changed = true;
                    assert(!(post[i as int] is Other));
                },
                NodeParam::Other => {
                    assert(params_touch(post) == params_touch(pre)) by {
                        if params_touch(post) {
                            let k = choose|k: int| 0 <= k < post.len() && !(post[k] is Other);
                            assert(k < i);
                            assert(pre[k] == post[k]);
                        }
                        if params_touch(pre) {
                            let k = choose|k: int| 0 <= k < pre.len() && !(pre[k] is Other);
                            assert(pre[k] == post[k]);
                        }
                    }
                },
            }
            i = i + 1;
        }
        assert(params@.take(params@.len() as int) =~= params@);
        changed
    }
}

} // verus!
