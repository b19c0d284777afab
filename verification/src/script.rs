//! What scripts are given of the shell: the reads a script made, which
//! decide whether a change re-renders it, and the named host functions.

use std::marker::PhantomData;

use vstd::prelude::*;

pub mod compositor;
pub mod pipewire;

verus! {

/// A slice of shell state a script can read.
#[derive(Clone, Copy, Debug, PartialEq, Eq, Hash, Structural)]
pub enum Updates {
    Compositor(compositor::Updates),
    Pipewire(pipewire::Updates),
}

/// The slices of state a script read, so that a change to any of them
/// re-renders it. One record is owned by whoever records and reads it:
/// handing it to several readers that share it takes a lock around it,
/// as a `RefCell` shared through clones is not open to proof.
pub struct Subscriptions {
    reads: Vec<Updates>,
}

impl View for Subscriptions {
    type V = Set<Updates>;

    closed spec fn view(&self) -> Set<Updates> {
        self.reads@.to_set()
    }
}

impl Subscriptions {
    /// Nothing read yet.
    pub fn new() -> (r: Subscriptions)
        ensures
            r@ == Set::<Updates>::empty(),
    {
        let r = Subscriptions { reads: Vec::new() };
        assert(r.reads@.to_set() =~= Set::<Updates>::empty());
        r
    }

    /// Notes that the script read `update`.
    pub fn record(&mut self, update: Updates)
        ensures
            final(self)@ == old(self)@.insert(update),
    {
        if !self.contains(update) {
            self.reads.push(update);
            assert(self.reads@.to_set() =~= old(self).reads@.to_set().insert(update)) by {
                assert forall|u: Updates| #[trigger] self.reads@.to_set().contains(u) implies old(
                    self,
                ).reads@.to_set().insert(update).contains(u) by {
                    let i = choose|i: int| 0 <= i < self.reads@.len() && self.reads@[i] == u;
                    if i < old(self).reads@.len() {
                        assert(old(self).reads@[i] == u);
                    }
                }
                assert forall|u: Updates| #[trigger] old(self).reads@.to_set().insert(update).contains(u)
                    implies self.reads@.to_set().contains(u) by {
                    if u == update {
                        assert(self.reads@[self.reads@.len() - 1] == u);
                    } else {
                        let i = choose|i: int| 0 <= i < old(self).reads@.len() && old(self).reads@[i] == u;
                        assert(self.reads@[i] == u);
                    }
                }
            }
        } else {
            assert(old(self)@.insert(update) =~= old(self)@);
        }
    }

    /// Whether the script read `update`.
    pub fn contains(&self, update: Updates) -> (r: bool)
        ensures
            r == self@.contains(update),
    {
        let mut i: usize = 0;
        while i < self.reads.len()
            invariant
                i <= self.reads@.len(),
                forall|j: int| 0 <= j < i ==> self.reads@[j] != update,
            decreases self.reads@.len() - i,
        {
            if self.reads[i] == update {
                assert(self.reads@.to_set().contains(self.reads@[i as int]));
                return true;
            }
            i = i + 1;
        }
        assert(!self.reads@.contains(update));
        false
    }
}

impl Default for Subscriptions {
    fn default() -> (r: Subscriptions)
        ensures
            r@ == Set::<Updates>::empty(),
    {
        Subscriptions::new()
    }
}

/// The reads a fresh record holds after `record` is called with each of
/// `us`, in order.
pub open spec fn recorded(us: Seq<Updates>) -> Set<Updates>
    decreases us.len(),
{
    if us.len() == 0 {
        Set::empty()
    } else {
        recorded(us.drop_last()).insert(us.last())
    }
}

/// What a script read is exactly what was recorded: after recording `us`
/// on a fresh record, it contains `u` if and only if `u` is one of `us`.
pub proof fn lemma_recorded_reads_are_contained(us: Seq<Updates>, u: Updates)
    ensures
        recorded(us).contains(u) <==> us.contains(u),
    decreases us.len(),
{
    if us.len() > 0 {
        lemma_recorded_reads_are_contained(us.drop_last(), u);
        if us.drop_last().contains(u) {
            let i = choose|i: int| 0 <= i < us.drop_last().len() && us.drop_last()[i] == u;
            assert(us[i] == u);
        }
        if us.contains(u) && u != us.last() {
            let i = choose|i: int| 0 <= i < us.len() && us[i] == u;
            assert(us.drop_last()[i] == u);
        }
        if u == us.last() {
            assert(us[us.len() - 1] == u);
        }
    }
}

/// A host function with its script name and the names of all its
/// parameters, context parameters included.
pub struct Named<F> {
    name: &'static str,
    names: &'static [&'static str],
    f: F,
}

impl<F> Named<F> {
    /// `f`, named `name`, with parameters named `names`.
    pub fn new(name: &'static str, names: &'static [&'static str], f: F) -> (r: Named<F>)
        ensures
            r.name() == name,
            r.names() == names,
            r.function() == f,
    {
        Named { name, names, f }
    }

    /// The name scripts call it by.
    pub closed spec fn name(&self) -> &'static str {
        self.name
    }

    /// The names of its parameters.
    pub closed spec fn names(&self) -> &'static [&'static str] {
        self.names
    }

    /// The function.
    pub closed spec fn function(&self) -> F {
        self.f
    }

    /// The name scripts call it by.
    pub fn script_name(&self) -> (r: &'static str)
        ensures
            r == self.name(),
    {
        self.name
    }

    /// The names of its parameters.
    pub fn param_names(&self) -> (r: &'static [&'static str])
        ensures
            r == self.names(),
    {
        self.names
    }

    /// The function itself.
    pub fn into_inner(self) -> (r: F)
        ensures
            r == self.function(),
    {
        self.f
    }
}

/// A plain function as a host function; `Input` is its parameter list.
pub struct FunctionHostFn<Input, F> {
    pub f: F,
    pub marker: PhantomData<Input>,
}

/// Marks functions that take the app as their first parameter.
pub struct WithApp<Input>(pub PhantomData<Input>);

/// Marks host functions that return a future.
pub struct Async<M>(pub PhantomData<M>);

/// Read-only access to a global of the app.
pub struct Glob<'a, G>(pub &'a G);

impl<'a, G> Glob<'a, G> {
    /// The global.
    pub fn get(&self) -> (r: &'a G)
        ensures
            r == self.0,
    {
        self.0
    }
}

/// The parameters a declaration lists for the first `n` parameters: each
/// one with a script type, as `name: type`; context parameters have none.
pub open spec fn typed_params(
    names: Seq<Seq<char>>,
    types: Seq<Option<Seq<char>>>,
    n: int,
) -> Seq<Seq<char>>
    decreases n,
{
    if n <= 0 {
        Seq::empty()
    } else {
        let prev = typed_params(names, types, n - 1);
        match types[n - 1] {
            Some(t) => prev.push(names[n - 1] + seq![':', ' '] + t),
            None => prev,
        }
    }
}

/// `parts` with `sep` between each two.
pub open spec fn joined_by(parts: Seq<Seq<char>>, sep: Seq<char>) -> Seq<char>
    decreases parts.len(),
{
    if parts.len() == 0 {
        Seq::empty()
    } else if parts.len() == 1 {
        parts[0]
    } else {
        joined_by(parts.drop_last(), sep) + sep + parts.last()
    }
}

/// The TypeScript declaration of host function `name`: its typed
/// parameters, pairing names and types as far as both go, and its return
/// type, as a `Promise` when it is async.
pub open spec fn declaration_text(
    name: Seq<char>,
    names: Seq<Seq<char>>,
    types: Seq<Option<Seq<char>>>,
    ret: Seq<char>,
    is_async: bool,
) -> Seq<char> {
    let n = if names.len() < types.len() {
        names.len() as int
    } else {
        types.len() as int
    };
    "export function "@ + name + seq!['('] + joined_by(typed_params(names, types, n), seq![',', ' '])
        + seq![')', ':', ' '] + (if is_async {
        "Promise<"@ + ret + seq!['>']
    } else {
        ret
    }) + seq![';']
}

/// The views of a list of optional strings.
pub open spec fn opt_string_views(s: Seq<Option<String>>) -> Seq<Option<Seq<char>>> {
    s.map_values(|o: Option<String>| match o {
        Some(t) => Some(t@),
        None => None,
    })
}

/// The views of a list of names.
pub open spec fn str_views(s: Seq<&str>) -> Seq<Seq<char>> {
    s.map_values(|n: &str| n@)
}

/// The TypeScript declaration line of host function `name`, whose
/// parameters are named `names` and typed `types` (`None` for a context
/// parameter, which scripts do not pass), returning `ret`.
pub fn declaration(
    name: &str,
    names: &[&str],
    types: &Vec<Option<String>>,
    ret: &str,
    is_async: bool,
) -> (r: String)
    ensures
        r@ == declaration_text(name@, str_views(names@), opt_string_views(types@), ret@, is_async),
{
    let ghost ns = str_views(names@);
    let ghost ts = opt_string_views(types@);
    let n = if names.len() < types.len() {
        names.len()
    } else {
        types.len()
    };
    let mut params = String::new();
    let mut count: usize = 0;
    let mut i: usize = 0;
    proof {
        reveal_strlit(", ");
        reveal_strlit(": ");
    }
    while i < n
        invariant
            n <= names@.len(),
            n <= types@.len(),
            i <= n,
            ns == str_views(names@),
            ts == opt_string_views(types@),
            ", "@ == seq![',', ' '],
            ": "@ == seq![':', ' '],
            count == typed_params(ns, ts, i as int).len(),
            count <= i,
            params@ == joined_by(typed_params(ns, ts, i as int), seq![',', ' ']),
        decreases n - i,
    {
        match &types[i] {
            Some(t) => {
                let ghost prev = typed_params(ns, ts, i as int);
                let ghost part = ns[i as int] + seq![':', ' '] + t@;
                assert(ts[i as int] == Some(t@));
                assert(typed_params(ns, ts, i + 1) == prev.push(part));
                if count > 0 {
                    params.append(", ");
                }
                params.append(names[i]);
                params.append(": ");
                params.append(t.as_str());
                proof {
                    let next = prev.push(part);
                    assert(next.drop_last() =~= prev);
                    if prev.len() == 0 {
                        assert(params@ =~= part);
                    } else {
                        assert(params@ =~= joined_by(prev, seq![',', ' ']) + seq![',', ' '] + part);
                    }
                }
                count = count + 1;
            },
            None => {
                assert(ts[i as int] is None);
            },
        }
        i = i + 1;
    }
    let mut out = String::from_str("export function ");
    out.append(name);
    out.append("(");
    out.append(params.as_str());
    out.append("): ");
    if is_async {
        out.append("Promise<");
        out.append(ret);
        out.append(">");
    } else {
        out.append(ret);
    }
    out.append(";");
    proof {
        reveal_strlit("(");
        reveal_strlit("): ");
        reveal_strlit(">");
        reveal_strlit(";");
        assert(out@ =~= declaration_text(name@, ns, ts, ret@, is_async));
    }
    out
}

} // verus!
