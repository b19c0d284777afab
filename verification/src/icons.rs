//! Which icon file an application is shown with: a name it reports is looked
//! up in the icon theme, and failing that in the desktop entries it belongs to.

use vstd::prelude::*;

use crate::text::{
    after_last, find, first_occurrence, is_first_occurrence, is_prefix, split_once, split_once_spec, str_eq, trim, trim_by, trim_with, Strip, first_word, first_word_of, is_suffix, last_segment, lowered, all_ascii, ascii_lower, strip_prefix,
    strip_suffix, to_lowercase,
};

verus! {

/// How many keys [`keys`] produces at most.
pub const KEY_RANKS: usize = 5;

/// `"-wrapped"`, the suffix Nix gives the binary it wraps.
pub open spec fn wrapped_suffix() -> Seq<char> {
    seq!['-', 'w', 'r', 'a', 'p', 'p', 'e', 'd']
}

/// `s` without a leading `.` and then without a `-wrapped` suffix.
pub open spec fn undecorated(s: Seq<char>) -> Seq<char> {
    let t = if s.len() > 0 && s[0] == '.' {
        s.drop_first()
    } else {
        s
    };
    if is_suffix(wrapped_suffix(), t) {
        t.subrange(0, t.len() - wrapped_suffix().len())
    } else {
        t
    }
}

/// Nix installs a binary as `.<name>-wrapped`, and a pipewire stream reports
/// that as its `application.process.binary`. Nothing matches it as it stands.
pub fn undecorate(name: &str) -> (r: &str)
    ensures
        r@ == undecorated(name@),
{
    proof {
        reveal_strlit(".");
        reveal_strlit("-wrapped");
    }
    assert("."@ =~= seq!['.']);
    assert("-wrapped"@ =~= wrapped_suffix());
    let name = match strip_prefix(name, ".") {
        Some(rest) => {
            assert(name@.subrange(0, 1)[0] == '.');
            assert(rest@ =~= name@.drop_first());
            rest
        },
        None => {
            proof {
                if name@.len() > 0 && name@[0] == '.' {
                    assert(name@.subrange(0, 1) =~= seq!['.']);
                }
            }
            name
        },
    };
    match strip_suffix(name, "-wrapped") {
        Some(rest) => rest,
        None => name,
    }
}

/// The binary an `Exec=` line runs, as [`exec_binary`] reads it.
pub open spec fn exec_binary_spec(exec: Seq<char>) -> Option<Seq<char>> {
    match first_word(exec) {
        Some(w) => {
            let b = after_last(w, '/');
            if b.len() > 0 {
                Some(undecorated(b))
            } else {
                None
            }
        },
        None => None,
    }
}

/// The binary an `Exec=` line runs, without its path or its arguments.
pub fn exec_binary(exec: &str) -> (r: Option<&str>)
    ensures
        match r {
            Some(b) => exec_binary_spec(exec@) == Some(b@),
            None => exec_binary_spec(exec@) is None,
        },
{
    let word = match first_word_of(exec) {
        Some(w) => w,
        None => return None,
    };
    let binary = last_segment(word, '/');
    if binary.unicode_len() == 0 {
        None
    } else {
        Some(undecorate(binary))
    }
}

/// What the shell reads of a desktop entry: its id, its name in the user's
/// languages, its `Exec=`, `StartupWMClass=` and `Icon=` values.
pub struct EntryInfo {
    pub appid: String,
    pub name: Option<String>,
    pub exec_line: Option<String>,
    pub startup_wm_class: Option<String>,
    pub icon: Option<String>,
}

/// `o` as a sequence of zero or one element.
pub open spec fn opt_seq<A>(o: Option<A>) -> Seq<A> {
    match o {
        Some(a) => seq![a],
        None => Seq::empty(),
    }
}

/// The view of an optional string.
pub open spec fn opt_view(o: Option<String>) -> Option<Seq<char>> {
    match o {
        Some(s) => Some(s@),
        None => None,
    }
}

/// Every lowercased name a desktop entry is known by, weakest key first: its
/// name, the binary it runs, the last segment of its id, its id, its window
/// class.
pub open spec fn entry_keys(e: EntryInfo) -> Seq<Seq<char>> {
    let appid = lowered(e.appid@);
    let name = match e.name {
        Some(n) => Some(lowered(n@)),
        None => None,
    };
    let binary = match e.exec_line {
        Some(x) => match exec_binary_spec(x@) {
            Some(b) => Some(lowered(b)),
            None => None,
        },
        None => None,
    };
    let class = match e.startup_wm_class {
        Some(c) => Some(lowered(c@)),
        None => None,
    };
    opt_seq(name) + opt_seq(binary) + seq![after_last(appid, '.'), appid] + opt_seq(class)
}

/// Everything (lowercased) an entry is known by, weakest key first.
///
/// Anything short of this misses real applications: spotify reports the app
/// name `spotify` but the binary `.spotify-wrapped`, and Noctalia reports the
/// app name `Noctalia` against the appid `dev.noctalia.Noctalia`.
pub fn keys(entry: &EntryInfo) -> (r: Vec<String>)
    ensures
        r@.map_values(|k: String| k@) == entry_keys(*entry),
        r@.len() <= KEY_RANKS,
{
    let appid = to_lowercase(entry.appid.as_str());
    let mut keys: Vec<String> = Vec::new();
    match &entry.name {
        Some(name) => {
            keys.push(to_lowercase(name.as_str()));
        },
        None => {},
    }
    match &entry.exec_line {
        Some(exec) => match exec_binary(exec.as_str()) {
            Some(b) => {
                keys.push(to_lowercase(b));
            },
            None => {},
        },
        None => {},
    }
    // A reverse-DNS appid is named by its last segment everywhere else.
    let segment = last_segment(appid.as_str(), '.');
    keys.push(String::from_str(segment));
    keys.push(appid);
    match &entry.startup_wm_class {
        Some(class) => {
            keys.push(to_lowercase(class.as_str()));
        },
        None => {},
    }
    assert(keys@.map_values(|k: String| k@) =~= entry_keys(*entry));
    keys
}


/// The map a sequence of inserts builds: a later insert of a key wins.
pub open spec fn fold_pairs(s: Seq<(Seq<char>, Seq<char>)>) -> Map<Seq<char>, Seq<char>>
    decreases s.len(),
{
    if s.len() == 0 {
        Map::empty()
    } else {
        fold_pairs(s.drop_last()).insert(s.last().0, s.last().1)
    }
}

/// The views of a sequence of string pairs.
pub open spec fn pair_views(s: Seq<(String, String)>) -> Seq<(Seq<char>, Seq<char>)> {
    s.map_values(|p: (String, String)| (p.0@, p.1@))
}

/// Every name an application is known by (lowercased) to the `Icon=` value
/// of its desktop entry, kept as the inserts that built it.
pub struct NameTable {
    inserts: Vec<(String, String)>,
}

impl View for NameTable {
    type V = Map<Seq<char>, Seq<char>>;

    closed spec fn view(&self) -> Map<Seq<char>, Seq<char>> {
        fold_pairs(pair_views(self.inserts@))
    }
}

/// In a fold, a key maps to the value of its last insert.
proof fn lemma_fold_last(s: Seq<(Seq<char>, Seq<char>)>, i: int)
    requires
        0 <= i < s.len(),
        forall|j: int| i < j < s.len() ==> s[j].0 != s[i].0,
    ensures
        fold_pairs(s).contains_key(s[i].0),
        fold_pairs(s)[s[i].0] == s[i].1,
    decreases s.len(),
{
    if i < s.len() - 1 {
        let t = s.drop_last();
        assert forall|j: int| i < j < t.len() implies t[j].0 != t[i].0 by {
            assert(t[j] == s[j]);
        }
        lemma_fold_last(t, i);
    }
}

/// A key no insert names is not in the fold.
proof fn lemma_fold_absent(s: Seq<(Seq<char>, Seq<char>)>, k: Seq<char>)
    requires
        forall|j: int| 0 <= j < s.len() ==> s[j].0 != k,
    ensures
        !fold_pairs(s).contains_key(k),
    decreases s.len(),
{
    if s.len() > 0 {
        let t = s.drop_last();
        assert forall|j: int| 0 <= j < t.len() implies t[j].0 != k by {
            assert(t[j] == s[j]);
        }
        lemma_fold_absent(t, k);
    }
}

impl NameTable {
    /// A table that knows no name.
    pub fn new() -> (r: NameTable)
        ensures
            r@ == Map::<Seq<char>, Seq<char>>::empty(),
    {
        let r = NameTable { inserts: Vec::new() };
        assert(pair_views(r.inserts@) =~= Seq::<(Seq<char>, Seq<char>)>::empty());
        r
    }

    /// Maps `key` to `icon`, over whatever it mapped to before.
    pub fn insert(&mut self, key: String, icon: String)
        ensures
            final(self)@ == old(self)@.insert(key@, icon@),
    {
        let ghost before = pair_views(self.inserts@);
        self.inserts.push((key, icon));
        assert(pair_views(self.inserts@).drop_last() =~= before);
    }

    /// The icon `key` maps to.
    pub fn get(&self, key: &str) -> (r: Option<String>)
        ensures
            match r {
                Some(icon) => self@.contains_key(key@) && self@[key@] == icon@,
                None => !self@.contains_key(key@),
            },
    {
        let ghost s = pair_views(self.inserts@);
        let mut i = self.inserts.len();
        while i > 0
            invariant
                i <= self.inserts@.len(),
                s == pair_views(self.inserts@),
                forall|j: int| i <= j < s.len() ==> s[j].0 != key@,
            decreases i,
        {
            let pair = &self.inserts[i - 1];
            assert(s[i - 1] == (self.inserts@[i - 1].0@, self.inserts@[i - 1].1@));
            if str_eq(pair.0.as_str(), key) {
                proof {
                    lemma_fold_last(s, i - 1);
                }
                return Some(pair.1.clone());
            }
            i = i - 1;
        }
        proof {
            lemma_fold_absent(s, key@);
        }
        None
    }
}

/// The keys and the icon of each entry that names one.
pub open spec fn keyed_entries(es: Seq<EntryInfo>) -> Seq<(Seq<Seq<char>>, Seq<char>)>
    decreases es.len(),
{
    if es.len() == 0 {
        Seq::empty()
    } else {
        let prev = keyed_entries(es.drop_last());
        match es.last().icon {
            Some(icon) => prev.push((entry_keys(es.last()), icon@)),
            None => prev,
        }
    }
}

/// The inserts of rank `r` of the first `i` keyed entries.
pub open spec fn rank_inserts(ks: Seq<(Seq<Seq<char>>, Seq<char>)>, r: int, i: int) -> Seq<
    (Seq<char>, Seq<char>),
>
    decreases i,
{
    if i <= 0 {
        Seq::empty()
    } else {
        let prev = rank_inserts(ks, r, i - 1);
        let e = ks[i - 1];
        if 0 <= r < e.0.len() {
            prev.push((e.0[r], e.1))
        } else {
            prev
        }
    }
}

/// The inserts of every rank below `r`, rank by rank, each across all
/// entries.
pub open spec fn ranked_inserts(ks: Seq<(Seq<Seq<char>>, Seq<char>)>, r: int) -> Seq<
    (Seq<char>, Seq<char>),
>
    decreases r,
{
    if r <= 0 {
        Seq::empty()
    } else {
        ranked_inserts(ks, r - 1) + rank_inserts(ks, r - 1, ks.len() as int)
    }
}

/// Every name an application is known by (lowercased) to the `Icon=` value of
/// its desktop entry.
///
/// Ranked by key strength across all entries, not within one: an appid has to
/// beat another application's display name, not only its own. A later insert
/// wins, so the strongest key goes in last.
pub fn icon_names(entries: &Vec<EntryInfo>) -> (r: NameTable)
    ensures
        r@ == fold_pairs(ranked_inserts(keyed_entries(entries@), KEY_RANKS as int)),
{
    let mut keyed: Vec<(Vec<String>, String)> = Vec::new();
    let mut i: usize = 0;
    while i < entries.len()
        invariant
            i <= entries@.len(),
            keyed@.len() == keyed_entries(entries@.take(i as int)).len(),
            forall|j: int|
                0 <= j < keyed@.len() ==> keyed_view(#[trigger] keyed@[j]) == keyed_entries(
                    entries@.take(i as int),
                )[j],
            forall|j: int| 0 <= j < keyed@.len() ==> #[trigger] keyed@[j].0@.len() <= KEY_RANKS,
        decreases entries@.len() - i,
    {
        let entry = &entries[i];
        let ghost before = keyed_entries(entries@.take(i as int));
        assert(entries@.take(i + 1).drop_last() =~= entries@.take(i as int));
        assert(entries@.take(i + 1).last() == *entry);
        match &entry.icon {
            Some(icon) => {
                let k = keys(entry);
                keyed.push((k, icon.clone()));
                assert(keyed_entries(entries@.take(i + 1)) == before.push(
                    (entry_keys(*entry), icon@),
                ));
                assert(keyed_view(keyed@[keyed@.len() - 1]) == (entry_keys(*entry), icon@));
            },
            None => {},
        }
        i = i + 1;
    }
    assert(entries@.take(entries@.len() as int) =~= entries@);
    let ghost ks = keyed_entries(entries@);
    let mut table = NameTable { inserts: Vec::new() };
    assert(pair_views(table.inserts@) =~= ranked_inserts(ks, 0));
    let mut rank: usize = 0;
    while rank < KEY_RANKS
        invariant
            ks.len() == keyed@.len(),
            forall|j: int| 0 <= j < keyed@.len() ==> keyed_view(#[trigger] keyed@[j]) == ks[j],
            rank <= KEY_RANKS,
            pair_views(table.inserts@) == ranked_inserts(ks, rank as int),
        decreases KEY_RANKS - rank,
    {
        let mut j: usize = 0;
        assert(ranked_inserts(ks, rank as int) + rank_inserts(ks, rank as int, 0) =~= ranked_inserts(
            ks,
            rank as int,
        ));
        while j < keyed.len()
            invariant
                ks.len() == keyed@.len(),
                forall|t: int| 0 <= t < keyed@.len() ==> keyed_view(#[trigger] keyed@[t]) == ks[t],
                rank < KEY_RANKS,
                j <= keyed@.len(),
                pair_views(table.inserts@) == ranked_inserts(ks, rank as int) + rank_inserts(
                    ks,
                    rank as int,
                    j as int,
                ),
            decreases keyed@.len() - j,
        {
            let ghost before = pair_views(table.inserts@);
            let ghost e = ks[j as int];
            assert(keyed_view(keyed@[j as int]) == e);
            let (ks_j, icon) = &keyed[j];
            if rank < ks_j.len() {
                let key = ks_j[rank].clone();
                let value = icon.clone();
                assert(key@ == e.0[rank as int]);
                table.inserts.push((key, value));
                assert(pair_views(table.inserts@) =~= before.push((e.0[rank as int], e.1)));
                assert(ranked_inserts(ks, rank as int) + rank_inserts(ks, rank as int, j + 1)
                    =~= before.push((e.0[rank as int], e.1)));
            } else {
                assert(ranked_inserts(ks, rank as int) + rank_inserts(ks, rank as int, j + 1)
                    == before);
            }
            j = j + 1;
        }
        rank = rank + 1;
    }
    table
}

/// `k` is the key of entry `j` at rank `r`.
pub open spec fn key_at(ks: Seq<(Seq<Seq<char>>, Seq<char>)>, j: int, r: int, k: Seq<char>) -> bool {
    0 <= j < ks.len() && 0 <= r < ks[j].0.len() && ks[j].0[r] == k
}

/// Inserts that name another key leave a key's value alone.
proof fn lemma_fold_append_other(
    a: Seq<(Seq<char>, Seq<char>)>,
    b: Seq<(Seq<char>, Seq<char>)>,
    k: Seq<char>,
)
    requires
        forall|j: int| 0 <= j < b.len() ==> b[j].0 != k,
    ensures
        fold_pairs(a + b).contains_key(k) == fold_pairs(a).contains_key(k),
        fold_pairs(a).contains_key(k) ==> fold_pairs(a + b)[k] == fold_pairs(a)[k],
    decreases b.len(),
{
    if b.len() > 0 {
        let c = b.drop_last();
        assert((a + b).drop_last() =~= a + c);
        assert((a + b).last() == b.last());
        assert forall|j: int| 0 <= j < c.len() implies c[j].0 != k by {
            assert(c[j] == b[j]);
        }
        lemma_fold_append_other(a, c, k);
    } else {
        assert(a + b =~= a);
    }
}

/// Rank `r`'s inserts name only keys of rank `r`.
proof fn lemma_rank_inserts_keys(ks: Seq<(Seq<Seq<char>>, Seq<char>)>, r: int, m: int, k: Seq<char>)
    requires
        0 <= m <= ks.len(),
        forall|j: int| 0 <= j < m ==> !#[trigger] key_at(ks, j, r, k),
    ensures
        forall|t: int| 0 <= t < rank_inserts(ks, r, m).len() ==> rank_inserts(ks, r, m)[t].0 != k,
    decreases m,
{
    if m > 0 {
        lemma_rank_inserts_keys(ks, r, m - 1, k);
        assert(!key_at(ks, m - 1, r, k));
        let prev = rank_inserts(ks, r, m - 1);
        assert forall|t: int| 0 <= t < rank_inserts(ks, r, m).len() implies rank_inserts(
            ks,
            r,
            m,
        )[t].0 != k by {
            if t < prev.len() {
                assert(rank_inserts(ks, r, m)[t] == prev[t]);
            }
        }
    }
}

/// The ranks from `from` up add nothing to a key no entry has at those ranks.
proof fn lemma_higher_ranks_other(ks: Seq<(Seq<Seq<char>>, Seq<char>)>, from: int, to: int, k: Seq<char>)
    requires
        0 <= from <= to,
        forall|j: int, r: int| from <= r < to ==> !#[trigger] key_at(ks, j, r, k),
    ensures
        fold_pairs(ranked_inserts(ks, to)).contains_key(k) == fold_pairs(
            ranked_inserts(ks, from),
        ).contains_key(k),
        fold_pairs(ranked_inserts(ks, from)).contains_key(k) ==> fold_pairs(
            ranked_inserts(ks, to),
        )[k] == fold_pairs(ranked_inserts(ks, from))[k],
    decreases to - from,
{
    if to > from {
        lemma_higher_ranks_other(ks, from, to - 1, k);
        assert forall|j: int| 0 <= j < ks.len() implies !#[trigger] key_at(ks, j, to - 1, k) by {}
        lemma_rank_inserts_keys(ks, to - 1, ks.len() as int, k);
        lemma_fold_append_other(ranked_inserts(ks, to - 1), rank_inserts(ks, to - 1, ks.len() as int), k);
    }
}

/// Within one rank, the last entry with the key decides.
proof fn lemma_rank_last_entry(
    a: Seq<(Seq<char>, Seq<char>)>,
    ks: Seq<(Seq<Seq<char>>, Seq<char>)>,
    r: int,
    i: int,
    m: int,
    k: Seq<char>,
)
    requires
        key_at(ks, i, r, k),
        i < m <= ks.len(),
        forall|j: int| i < j < m ==> !#[trigger] key_at(ks, j, r, k),
    ensures
        fold_pairs(a + rank_inserts(ks, r, m)).contains_key(k),
        fold_pairs(a + rank_inserts(ks, r, m))[k] == ks[i].1,
    decreases m,
{
    let prev = rank_inserts(ks, r, m - 1);
    if m - 1 == i {
        let x = (a + prev).push((k, ks[i].1));
        assert(a + rank_inserts(ks, r, m) =~= x);
        assert(x.drop_last() =~= a + prev);
    } else {
        lemma_rank_last_entry(a, ks, r, i, m - 1, k);
        let e = ks[m - 1];
        assert(!key_at(ks, m - 1, r, k));
        if 0 <= r < e.0.len() {
            let x = (a + prev).push((e.0[r], e.1));
            assert(a + rank_inserts(ks, r, m) =~= x);
            assert(x.drop_last() =~= a + prev);
            assert(e.0[r] != k);
        } else {
            assert(a + rank_inserts(ks, r, m) =~= a + prev);
        }
    }
}

/// Keys are ranked across all entries: a key goes to the icon of the last
/// entry that has it at its strongest rank, whatever weaker rank other
/// entries have it at. So an application's id beats another application's
/// display name.
pub proof fn lemma_strongest_key_wins(ks: Seq<(Seq<Seq<char>>, Seq<char>)>, k: Seq<char>, r: int, i: int)
    requires
        0 <= r < KEY_RANKS,
        key_at(ks, i, r, k),
        forall|j: int| i < j < ks.len() ==> !#[trigger] key_at(ks, j, r, k),
        forall|j: int, s: int| r < s < KEY_RANKS ==> !#[trigger] key_at(ks, j, s, k),
    ensures
        fold_pairs(ranked_inserts(ks, KEY_RANKS as int)).contains_key(k),
        fold_pairs(ranked_inserts(ks, KEY_RANKS as int))[k] == ks[i].1,
{
    lemma_rank_last_entry(ranked_inserts(ks, r), ks, r, i, ks.len() as int, k);
    assert(ranked_inserts(ks, r + 1) == ranked_inserts(ks, r) + rank_inserts(ks, r, ks.len() as int));
    lemma_higher_ranks_other(ks, r + 1, KEY_RANKS as int, k);
}

/// The keys and icon of a keyed entry, as views.
pub open spec fn keyed_view(p: (Vec<String>, String)) -> (Seq<Seq<char>>, Seq<char>) {
    (p.0@.map_values(|k: String| k@), p.1@)
}


/// `"gtk-icon-theme-name"`.
pub open spec fn icon_theme_key() -> Seq<char> {
    seq![
        'g', 't', 'k', '-', 'i', 'c', 'o', 'n', '-', 't', 'h', 'e', 'm', 'e', '-', 'n', 'a', 'm', 'e',
    ]
}

/// What follows the key on the first line of `s` whose trimmed text starts
/// with it.
pub open spec fn icon_theme_line(s: Seq<char>) -> Option<Seq<char>>
    decreases s.len(),
{
    let nl = first_occurrence(s, seq!['\n']);
    let line = match nl {
        Some(i) => s.subrange(0, i),
        None => s,
    };
    let t = trim_by(line, Strip::WhiteSpace);
    if is_prefix(icon_theme_key(), t) {
        Some(t.subrange(icon_theme_key().len() as int, t.len() as int))
    } else {
        match nl {
            Some(i) => if 0 <= i < s.len() {
                icon_theme_line(s.subrange(i + 1, s.len() as int))
            } else {
                None
            },
            None => None,
        }
    }
}

/// The icon theme a GTK `settings.ini` names, as [`parse_icon_theme`] reads it.
pub open spec fn icon_theme_spec(settings: Seq<char>) -> Option<Seq<char>> {
    match icon_theme_line(settings) {
        Some(rest) => match split_once_spec(rest, seq!['=']) {
            Some((_, value)) => {
                let v = trim_by(trim_by(value, Strip::WhiteSpace), Strip::Char('"'));
                if v.len() > 0 {
                    Some(v)
                } else {
                    None
                }
            },
            None => None,
        },
        None => None,
    }
}

/// The icon theme a GTK `settings.ini` names in `gtk-icon-theme-name`.
pub fn parse_icon_theme(settings: &str) -> (r: Option<String>)
    ensures
        opt_view(r) == icon_theme_spec(settings@),
{
    proof {
        reveal_strlit("\n");
        reveal_strlit("gtk-icon-theme-name");
    }
    assert("\n"@ =~= seq!['\n']);
    assert("gtk-icon-theme-name"@ =~= icon_theme_key());
    let n = settings.unicode_len();
    let mut p: usize = 0;
    assert(settings@.subrange(0, n as int) =~= settings@);
    loop
        invariant
            n == settings@.len(),
            "\n"@ == seq!['\n'],
            "gtk-icon-theme-name"@ == icon_theme_key(),
            p <= n,
            icon_theme_line(settings@) == icon_theme_line(settings@.subrange(p as int, n as int)),
        decreases n - p,
    {
        let tail = settings.substring_char(p, n);
        let nl = find(tail, "\n");
        let line = match nl {
            Some(i) => {
                proof {
                    let j = choose|j: int| is_first_occurrence(tail@, seq!['\n'], j);
                    assert(is_first_occurrence(tail@, seq!['\n'], j));
                }
                tail.substring_char(0, i)
            },
            None => tail,
        };
        let t = trim(line);
        if let Some(after) = crate::text::strip_prefix(t, "gtk-icon-theme-name") {
            return theme_value(after);
        }
        match nl {
            Some(i) => {
                assert(tail@.subrange(i + 1, tail@.len() as int) =~= settings@.subrange(
                    p + i + 1,
                    n as int,
                ));
                p = p + i + 1;
            },
            None => {
                return None;
            },
        }
    }
}

/// The value after the `=` of an icon theme line, trimmed and unquoted.
fn theme_value(rest: &str) -> (r: Option<String>)
    ensures
        opt_view(r) == match split_once_spec(rest@, seq!['=']) {
            Some((_, value)) => {
                let v = trim_by(trim_by(value, Strip::WhiteSpace), Strip::Char('"'));
                if v.len() > 0 {
                    Some(v)
                } else {
                    None
                }
            },
            None => None,
        },
{
    proof {
        reveal_strlit("=");
    }
    assert("="@ =~= seq!['=']);
    let (_, value) = match split_once(rest, "=") {
        Some(parts) => parts,
        None => return None,
    };
    let value = trim_with(trim(value), Strip::Char('"'));
    if value.unicode_len() == 0 {
        None
    } else {
        Some(String::from_str(value))
    }
}

/// The theme to draw icons from: the one GTK's settings name, else the one
/// gsettings reports, else `hicolor`.
pub fn choose_icon_theme(gtk_settings: Option<String>, gsettings: Option<String>) -> (r: String)
    ensures
        r@ == match (gtk_settings, gsettings) {
            (Some(t), _) => t@,
            (None, Some(t)) => t@,
            (None, None) => "hicolor"@,
        },
{
    match gtk_settings {
        Some(t) => t,
        None => match gsettings {
            Some(t) => t,
            None => String::from_str("hicolor"),
        },
    }
}

/// Calls `freedesktop_icons::default_theme_gtk`, which asks `gsettings` for the
/// GNOME icon theme and returns its name if that theme is installed. What it
/// returns depends on the machine, so the contract says nothing of it.
#[verifier::external_body]
fn gsettings_icon_theme() -> (r: Option<String>) {
    freedesktop_icons::default_theme_gtk()
}

/// The user's icon theme, so themed icons win over the app-installed ones
/// that sit in `hicolor` at the end of the lookup chain. `gtk_settings` is
/// what GTK's `settings.ini` names; only without it is gsettings asked.
pub fn icon_theme(gtk_settings: Option<String>) -> (r: String)
    ensures
        gtk_settings matches Some(t) ==> r@ == t@,
{
    match gtk_settings {
        Some(t) => t,
        None => choose_icon_theme(None, gsettings_icon_theme()),
    }
}


/// Calls `freedesktop_icons::lookup(name)` in `theme` at `size`, with the
/// crate's own cache, and hands the path back as a string (lossily, for a
/// path that is not UTF-8). Where it finds an icon depends on what is on
/// disk, so the contract says nothing of the result.
#[verifier::external_body]
fn find_icon(name: &str, theme: &str, size: u16) -> (r: Option<String>) {
    freedesktop_icons::lookup(name).with_theme(theme).with_size(size).with_cache().find().map(
        |path| path.to_string_lossy().into_owned(),
    )
}

/// Names what `Path::file_stem` returns for a path given as a string: the
/// final component without its extension, if there is a final component.
pub uninterp spec fn path_file_stem(path: Seq<char>) -> Option<Seq<char>>;

/// Calls `std::path::Path::file_stem` on `path`. The result is only named.
#[verifier::external_body]
fn file_stem(path: &str) -> (r: Option<String>)
    ensures
        opt_view(r) == path_file_stem(path@),
{
    std::path::Path::new(path).file_stem().and_then(|stem| stem.to_str()).map(
        |stem| stem.to_string(),
    )
}

/// The map a sequence of cache inserts builds.
pub open spec fn fold_lookups(s: Seq<(Seq<char>, u16, Option<Seq<char>>)>) -> Map<
    (Seq<char>, u16),
    Option<Seq<char>>,
>
    decreases s.len(),
{
    if s.len() == 0 {
        Map::empty()
    } else {
        fold_lookups(s.drop_last()).insert((s.last().0, s.last().1), s.last().2)
    }
}

/// The views of a sequence of cache inserts.
pub open spec fn lookup_views(s: Seq<(String, u16, Option<String>)>) -> Seq<
    (Seq<char>, u16, Option<Seq<char>>),
> {
    s.map_values(|e: (String, u16, Option<String>)| (e.0@, e.1, opt_view(e.2)))
}

proof fn lemma_fold_lookups_last(s: Seq<(Seq<char>, u16, Option<Seq<char>>)>, i: int)
    requires
        0 <= i < s.len(),
        forall|j: int| i < j < s.len() ==> (s[j].0, s[j].1) != (s[i].0, s[i].1),
    ensures
        fold_lookups(s).contains_key((s[i].0, s[i].1)),
        fold_lookups(s)[(s[i].0, s[i].1)] == s[i].2,
    decreases s.len(),
{
    if i < s.len() - 1 {
        let t = s.drop_last();
        assert forall|j: int| i < j < t.len() implies (t[j].0, t[j].1) != (t[i].0, t[i].1) by {
            assert(t[j] == s[j]);
        }
        lemma_fold_lookups_last(t, i);
    }
}

proof fn lemma_fold_lookups_absent(s: Seq<(Seq<char>, u16, Option<Seq<char>>)>, k: (Seq<char>, u16))
    requires
        forall|j: int| 0 <= j < s.len() ==> (s[j].0, s[j].1) != k,
    ensures
        !fold_lookups(s).contains_key(k),
    decreases s.len(),
{
    if s.len() > 0 {
        let t = s.drop_last();
        assert forall|j: int| 0 <= j < t.len() implies (t[j].0, t[j].1) != k by {
            assert(t[j] == s[j]);
        }
        lemma_fold_lookups_absent(t, k);
    }
}

/// Everything a cache held is still there, unchanged.
pub open spec fn extends<K, V>(a: Map<K, V>, b: Map<K, V>) -> bool {
    forall|k: K| #[trigger] a.contains_key(k) ==> b.contains_key(k) && b[k] == a[k]
}

proof fn lemma_extends_lookup<K, V>(c0: Map<K, V>, c1: Map<K, V>, k: K, v: V)
    requires
        c0.contains_key(k) ==> c1 == c0,
        !c0.contains_key(k) ==> c1 == c0.insert(k, v),
    ensures
        extends(c0, c1),
        c1.contains_key(k),
{
    assert forall|j: K| c0.contains_key(j) implies c1.contains_key(j) && c1[j] == c0[j] by {
        if !c0.contains_key(k) {
            assert(j != k);
        }
    }
}

proof fn lemma_extends_trans<K, V>(a: Map<K, V>, b: Map<K, V>, c: Map<K, V>)
    requires
        extends(a, b),
        extends(b, c),
    ensures
        extends(a, c),
{
    assert forall|j: K| a.contains_key(j) implies c.contains_key(j) && c[j] == a[j] by {
        assert(b.contains_key(j));
    }
}

/// The map a sequence of file checks builds.
pub open spec fn fold_checks(s: Seq<(Seq<char>, bool)>) -> Map<Seq<char>, bool>
    decreases s.len(),
{
    if s.len() == 0 {
        Map::empty()
    } else {
        fold_checks(s.drop_last()).insert(s.last().0, s.last().1)
    }
}

/// The views of a sequence of file checks.
pub open spec fn check_views(s: Seq<(String, bool)>) -> Seq<(Seq<char>, bool)> {
    s.map_values(|e: (String, bool)| (e.0@, e.1))
}

proof fn lemma_fold_checks_last(s: Seq<(Seq<char>, bool)>, i: int)
    requires
        0 <= i < s.len(),
        forall|j: int| i < j < s.len() ==> s[j].0 != s[i].0,
    ensures
        fold_checks(s).contains_key(s[i].0),
        fold_checks(s)[s[i].0] == s[i].1,
    decreases s.len(),
{
    if i < s.len() - 1 {
        let t = s.drop_last();
        assert forall|j: int| i < j < t.len() implies t[j].0 != t[i].0 by {
            assert(t[j] == s[j]);
        }
        lemma_fold_checks_last(t, i);
    }
}

proof fn lemma_fold_checks_absent(s: Seq<(Seq<char>, bool)>, k: Seq<char>)
    requires
        forall|j: int| 0 <= j < s.len() ==> s[j].0 != k,
    ensures
        !fold_checks(s).contains_key(k),
    decreases s.len(),
{
    if s.len() > 0 {
        let t = s.drop_last();
        assert forall|j: int| 0 <= j < t.len() implies t[j].0 != k by {
            assert(t[j] == s[j]);
        }
        lemma_fold_checks_absent(t, k);
    }
}

/// What an `Icon=` value is looked up by: its file stem, or itself.
pub open spec fn stem_or(icon: Seq<char>) -> Seq<char> {
    match path_file_stem(icon) {
        Some(stem) => stem,
        None => icon,
    }
}

/// The lookups [`entry_icon_spec`] reads are in `cache`, and the file check
/// it reads is in `files`.
pub open spec fn entry_icon_settled(
    names: Map<Seq<char>, Seq<char>>,
    cache: Map<(Seq<char>, u16), Option<Seq<char>>>,
    files: Map<Seq<char>, bool>,
    name: Seq<char>,
    size: u16,
) -> bool {
    names.contains_key(name) ==> {
        &&& cache.contains_key((stem_or(names[name]), size))
        &&& (cache[(stem_or(names[name]), size)] is None && is_prefix(seq!['/'], names[name]))
            ==> files.contains_key(names[name])
    }
}

/// The icon the desktop entry known as `name` names: its stem looked up in
/// the theme, or, for an absolute `Icon=` path, that file when it exists.
pub open spec fn entry_icon_spec(
    names: Map<Seq<char>, Seq<char>>,
    cache: Map<(Seq<char>, u16), Option<Seq<char>>>,
    files: Map<Seq<char>, bool>,
    name: Seq<char>,
    size: u16,
) -> Option<Seq<char>> {
    if !names.contains_key(name) {
        None
    } else {
        let icon = names[name];
        match cache[(stem_or(icon), size)] {
            Some(path) => Some(path),
            None => if is_prefix(seq!['/'], icon) && files[icon] {
                Some(icon)
            } else {
                None
            },
        }
    }
}

/// An `Icon=` value is looked up in the theme by its file stem, so a themed
/// replacement of a shipped file wins: when the theme has an icon of that
/// stem, that is the entry's icon; when it has none, the value itself is,
/// if it is an absolute path to a file that exists, and nothing else is. A
/// value with no file stem is looked up as it is written.
pub proof fn lemma_entry_icon_is_looked_up_by_stem(
    names: Map<Seq<char>, Seq<char>>,
    cache: Map<(Seq<char>, u16), Option<Seq<char>>>,
    files: Map<Seq<char>, bool>,
    name: Seq<char>,
    size: u16,
)
    requires
        names.contains_key(name),
    ensures
        forall|stem: Seq<char>|
            path_file_stem(names[name]) == Some(stem) ==> {
                &&& entry_icon_settled(names, cache, files, name, size) ==> cache.contains_key(
                    (stem, size),
                )
                &&& (cache[(stem, size)] is Some ==> entry_icon_spec(names, cache, files, name, size)
                    == cache[(stem, size)])
                &&& (cache[(stem, size)] is None ==> entry_icon_spec(
                    names,
                    cache,
                    files,
                    name,
                    size,
                ) == (if names[name].len() > 0 && names[name][0] == '/' && files[names[name]] {
                    Some(names[name])
                } else {
                    None
                }))
            },
        path_file_stem(names[name]) is None ==> {
            &&& entry_icon_settled(names, cache, files, name, size) ==> cache.contains_key(
                (names[name], size),
            )
            &&& (cache[(names[name], size)] is Some ==> entry_icon_spec(
                names,
                cache,
                files,
                name,
                size,
            ) == cache[(names[name], size)])
        },
{
    let icon = names[name];
    if icon.len() > 0 {
        assert(is_prefix(seq!['/'], icon) == (icon[0] == '/')) by {
            if icon[0] == '/' {
                assert(icon.subrange(0, 1) =~= seq!['/']);
            }
            if is_prefix(seq!['/'], icon) {
                assert(icon.subrange(0, 1)[0] == icon[0]);
            }
        }
    }
}

/// What a reported name is looked up as.
pub open spec fn query_name(raw: Seq<char>) -> Seq<char> {
    lowered(undecorated(raw))
}

/// A reported name is undecorated and lowercased before any lookup: two
/// names that differ only in the case of ASCII letters, or in a Nix
/// wrapper's decoration, are looked up as one and resolve alike.
pub proof fn lemma_query_ignores_case_and_wrapper(
    names: Map<Seq<char>, Seq<char>>,
    cache: Map<(Seq<char>, u16), Option<Seq<char>>>,
    files: Map<Seq<char>, bool>,
    a: Seq<char>,
    b: Seq<char>,
    size: u16,
)
    requires
        all_ascii(undecorated(a)),
        all_ascii(undecorated(b)),
        ascii_lower(undecorated(a)) == ascii_lower(undecorated(b)),
    ensures
        query_name(a) == query_name(b),
        resolve_spec(names, cache, files, a, size) == resolve_spec(names, cache, files, b, size),
{
}

/// The lookups and file checks [`resolve_spec`] reads for `raw` are in
/// `cache` and `files`.
pub open spec fn name_settled(
    names: Map<Seq<char>, Seq<char>>,
    cache: Map<(Seq<char>, u16), Option<Seq<char>>>,
    files: Map<Seq<char>, bool>,
    raw: Seq<char>,
    size: u16,
) -> bool {
    let n = query_name(raw);
    cache.contains_key((n, size)) && (cache[(n, size)] is None ==> entry_icon_settled(
        names,
        cache,
        files,
        n,
        size,
    ))
}

/// The icon one reported name resolves to: the theme's icon of that name,
/// else the icon of the desktop entry known by it.
pub open spec fn resolve_spec(
    names: Map<Seq<char>, Seq<char>>,
    cache: Map<(Seq<char>, u16), Option<Seq<char>>>,
    files: Map<Seq<char>, bool>,
    raw: Seq<char>,
    size: u16,
) -> Option<Seq<char>> {
    let n = query_name(raw);
    match cache[(n, size)] {
        Some(path) => Some(path),
        None => entry_icon_spec(names, cache, files, n, size),
    }
}

/// The icon of the first of `raws` that resolves.
pub open spec fn first_resolved(
    names: Map<Seq<char>, Seq<char>>,
    cache: Map<(Seq<char>, u16), Option<Seq<char>>>,
    files: Map<Seq<char>, bool>,
    raws: Seq<Seq<char>>,
    size: u16,
) -> Option<Seq<char>>
    decreases raws.len(),
{
    if raws.len() == 0 {
        None
    } else {
        match resolve_spec(names, cache, files, raws[0], size) {
            Some(path) => Some(path),
            None => first_resolved(names, cache, files, raws.drop_first(), size),
        }
    }
}

/// Every name [`first_resolved`] reads is settled in `cache` and `files`.
pub open spec fn resolved_settled(
    names: Map<Seq<char>, Seq<char>>,
    cache: Map<(Seq<char>, u16), Option<Seq<char>>>,
    files: Map<Seq<char>, bool>,
    raws: Seq<Seq<char>>,
    size: u16,
) -> bool
    decreases raws.len(),
{
    raws.len() == 0 || (name_settled(names, cache, files, raws[0], size) && (resolve_spec(
        names,
        cache,
        files,
        raws[0],
        size,
    ) is None ==> resolved_settled(names, cache, files, raws.drop_first(), size)))
}

/// A settled name resolves the same in any cache and file record that extend
/// these.
pub proof fn lemma_name_stable(
    names: Map<Seq<char>, Seq<char>>,
    c1: Map<(Seq<char>, u16), Option<Seq<char>>>,
    c2: Map<(Seq<char>, u16), Option<Seq<char>>>,
    f1: Map<Seq<char>, bool>,
    f2: Map<Seq<char>, bool>,
    raw: Seq<char>,
    size: u16,
)
    requires
        name_settled(names, c1, f1, raw, size),
        extends(c1, c2),
        extends(f1, f2),
    ensures
        name_settled(names, c2, f2, raw, size),
        resolve_spec(names, c2, f2, raw, size) == resolve_spec(names, c1, f1, raw, size),
{
    let n = query_name(raw);
    assert(c2[(n, size)] == c1[(n, size)]);
    if c1[(n, size)] is None && names.contains_key(n) {
        assert(c2[(stem_or(names[n]), size)] == c1[(stem_or(names[n]), size)]);
        if c1[(stem_or(names[n]), size)] is None && is_prefix(seq!['/'], names[n]) {
            assert(f2[names[n]] == f1[names[n]]);
        }
    }
}

/// Names settled in one cache and file record resolve the same in any that
/// extend them: an answer, once given, is given again.
pub proof fn lemma_resolved_stable(
    names: Map<Seq<char>, Seq<char>>,
    c1: Map<(Seq<char>, u16), Option<Seq<char>>>,
    c2: Map<(Seq<char>, u16), Option<Seq<char>>>,
    f1: Map<Seq<char>, bool>,
    f2: Map<Seq<char>, bool>,
    raws: Seq<Seq<char>>,
    size: u16,
)
    requires
        resolved_settled(names, c1, f1, raws, size),
        extends(c1, c2),
        extends(f1, f2),
    ensures
        resolved_settled(names, c2, f2, raws, size),
        first_resolved(names, c2, f2, raws, size) == first_resolved(names, c1, f1, raws, size),
    decreases raws.len(),
{
    if raws.len() > 0 {
        lemma_name_stable(names, c1, c2, f1, f2, raws[0], size);
        if resolve_spec(names, c1, f1, raws[0], size) is None {
            lemma_resolved_stable(names, c1, c2, f1, f2, raws.drop_first(), size);
        }
    }
}

/// Skipping names that are settled and resolve to nothing changes nothing.
proof fn lemma_skip_unresolved(
    names: Map<Seq<char>, Seq<char>>,
    c: Map<(Seq<char>, u16), Option<Seq<char>>>,
    f: Map<Seq<char>, bool>,
    raws: Seq<Seq<char>>,
    size: u16,
    i: int,
)
    requires
        0 <= i <= raws.len(),
        forall|j: int|
            0 <= j < i ==> name_settled(names, c, f, #[trigger] raws[j], size) && resolve_spec(
                names,
                c,
                f,
                raws[j],
                size,
            ) is None,
    ensures
        first_resolved(names, c, f, raws, size) == first_resolved(
            names,
            c,
            f,
            raws.subrange(i, raws.len() as int),
            size,
        ),
        resolved_settled(names, c, f, raws.subrange(i, raws.len() as int), size) ==> resolved_settled(
            names,
            c,
            f,
            raws,
            size,
        ),
    decreases i,
{
    if i == 0 {
        assert(raws.subrange(0, raws.len() as int) =~= raws);
    } else {
        let t = raws.drop_first();
        assert forall|j: int| 0 <= j < i - 1 implies name_settled(names, c, f, #[trigger] t[j], size)
            && resolve_spec(names, c, f, t[j], size) is None by {
            assert(t[j] == raws[j + 1]);
        }
        lemma_skip_unresolved(names, c, f, t, size, i - 1);
        assert(t.subrange(i - 1, t.len() as int) =~= raws.subrange(i, raws.len() as int));
        assert(name_settled(names, c, f, raws[0], size));
    }
}

/// `"application-x-executable"`, `"applications-other"`, `"application-default-icon"`:
/// generic icons to fall back on, best first. Only the first is in the icon
/// naming spec; the other two are what themes ship it as.
pub open spec fn fallback_names() -> Seq<Seq<char>> {
    seq!["application-x-executable"@, "applications-other"@, "application-default-icon"@]
}

/// The first of `icons` the cache holds a path for.
pub open spec fn first_cached(
    cache: Map<(Seq<char>, u16), Option<Seq<char>>>,
    icons: Seq<Seq<char>>,
    size: u16,
) -> Option<Seq<char>>
    decreases icons.len(),
{
    if icons.len() == 0 {
        None
    } else {
        match cache[(icons[0], size)] {
            Some(path) => Some(path),
            None => first_cached(cache, icons.drop_first(), size),
        }
    }
}

/// Every lookup [`first_cached`] reads is in `cache`.
pub open spec fn cached_settled(
    cache: Map<(Seq<char>, u16), Option<Seq<char>>>,
    icons: Seq<Seq<char>>,
    size: u16,
) -> bool
    decreases icons.len(),
{
    icons.len() == 0 || (cache.contains_key((icons[0], size)) && (cache[(icons[0], size)] is None
        ==> cached_settled(cache, icons.drop_first(), size)))
}

/// The state icon lookups run against: the icon theme, the desktop-entry name
/// table, every theme lookup made so far with its answer, and every file an
/// absolute `Icon=` path was checked for. A name nothing answers to costs a
/// full walk of the theme chain, so misses are kept too; icons installed
/// afterwards are not picked up.
pub struct IconResolver {
    theme: String,
    names: NameTable,
    lookups: Vec<(String, u16, Option<String>)>,
    checks: Vec<(String, bool)>,
}

/// Calls `std::path::Path::exists` on `path`. Whether a file is there
/// depends on the disk, so the contract says nothing of the result.
#[verifier::external_body]
fn path_exists(path: &str) -> (r: bool) {
    std::path::Path::new(path).exists()
}

impl IconResolver {
    /// The icon theme lookups go to.
    pub closed spec fn theme(&self) -> Seq<char> {
        self.theme@
    }

    /// The desktop-entry name table.
    pub closed spec fn names(&self) -> Map<Seq<char>, Seq<char>> {
        self.names@
    }

    /// Every lookup made, keyed by name and size.
    pub closed spec fn cache(&self) -> Map<(Seq<char>, u16), Option<Seq<char>>> {
        fold_lookups(lookup_views(self.lookups@))
    }

    /// Every file checked, with whether it was there.
    pub closed spec fn files(&self) -> Map<Seq<char>, bool> {
        fold_checks(check_views(self.checks@))
    }

    /// A resolver that has looked nothing up yet.
    pub fn new(theme: String, names: NameTable) -> (r: IconResolver)
        ensures
            r.theme() == theme@,
            r.names() == names@,
            r.cache() == Map::<(Seq<char>, u16), Option<Seq<char>>>::empty(),
            r.files() == Map::<Seq<char>, bool>::empty(),
    {
        let r = IconResolver { theme, names, lookups: Vec::new(), checks: Vec::new() };
        assert(lookup_views(r.lookups@) =~= Seq::<(Seq<char>, u16, Option<Seq<char>>)>::empty());
        assert(check_views(r.checks@) =~= Seq::<(Seq<char>, bool)>::empty());
        r
    }

    /// Whether the file at `path` exists, checked once: a repeated check is
    /// answered from what the first one found.
    pub fn file_exists(&mut self, path: &str) -> (r: bool)
        ensures
            final(self).theme() == old(self).theme(),
            final(self).names() == old(self).names(),
            final(self).cache() == old(self).cache(),
            old(self).files().contains_key(path@) ==> final(self).files() == old(self).files()
                && r == old(self).files()[path@],
            !old(self).files().contains_key(path@) ==> final(self).files() == old(
                self,
            ).files().insert(path@, r),
    {
        let ghost s = check_views(self.checks@);
        let mut i = self.checks.len();
        while i > 0
            invariant
                i <= self.checks@.len(),
                s == check_views(self.checks@),
                forall|j: int| i <= j < s.len() ==> s[j].0 != path@,
            decreases i,
        {
            let entry = &self.checks[i - 1];
            assert(s[i - 1] == (self.checks@[i - 1].0@, self.checks@[i - 1].1));
            if str_eq(entry.0.as_str(), path) {
                proof {
                    lemma_fold_checks_last(s, i - 1);
                }
                return entry.1;
            }
            i = i - 1;
        }
        proof {
            lemma_fold_checks_absent(s, path@);
        }
        let there = path_exists(path);
        self.checks.push((String::from_str(path), there));
        assert(check_views(self.checks@).drop_last() =~= s);
        there
    }

    /// The theme's icon for `name` at `size`, looked up once: a repeated
    /// query, found or not, is answered from what the first one found. `size`
    /// is a preference, not a filter: a theme that lacks it falls back to its
    /// closest directory, so the file may come back at any resolution.
    pub fn lookup(&mut self, name: &str, size: u16) -> (r: Option<String>)
        ensures
            final(self).theme() == old(self).theme(),
            final(self).names() == old(self).names(),
            final(self).files() == old(self).files(),
            old(self).cache().contains_key((name@, size)) ==> final(self).cache() == old(
                self,
            ).cache() && opt_view(r) == old(self).cache()[(name@, size)],
            !old(self).cache().contains_key((name@, size)) ==> final(self).cache() == old(
                self,
            ).cache().insert((name@, size), opt_view(r)),
    {
        let ghost s = lookup_views(self.lookups@);
        let mut i = self.lookups.len();
        while i > 0
            invariant
                i <= self.lookups@.len(),
                s == lookup_views(self.lookups@),
                forall|j: int| i <= j < s.len() ==> (s[j].0, s[j].1) != (name@, size),
            decreases i,
        {
            let entry = &self.lookups[i - 1];
            assert(s[i - 1] == (self.lookups@[i - 1].0@, self.lookups@[i - 1].1, opt_view(
                self.lookups@[i - 1].2,
            )));
            if entry.1 == size && str_eq(entry.0.as_str(), name) {
                proof {
                    lemma_fold_lookups_last(s, i - 1);
                }
                return entry.2.clone();
            }
            i = i - 1;
        }
        proof {
            lemma_fold_lookups_absent(s, (name@, size));
        }
        let path = find_icon(name, self.theme.as_str(), size);
        self.lookups.push((String::from_str(name), size, path.clone()));
        assert(lookup_views(self.lookups@).drop_last() =~= s);
        path
    }

    /// The icon of the desktop entry known as `name`. `Icon=` may be an
    /// absolute path: its stem is looked up in the theme first so a themed
    /// replacement still wins, then the file the app shipped is used if it
    /// exists.
    pub fn entry_icon(&mut self, name: &str, size: u16) -> (r: Option<String>)
        ensures
            final(self).theme() == old(self).theme(),
            final(self).names() == old(self).names(),
            extends(old(self).cache(), final(self).cache()),
            extends(old(self).files(), final(self).files()),
            entry_icon_settled(final(self).names(), final(self).cache(), final(self).files(), name@, size),
            opt_view(r) == entry_icon_spec(
                final(self).names(),
                final(self).cache(),
                final(self).files(),
                name@,
                size,
            ),
    {
        let icon = match self.names.get(name) {
            Some(icon) => icon,
            None => return None,
        };
        let stem = match file_stem(icon.as_str()) {
            Some(stem) => stem,
            None => icon.clone(),
        };
        assert(stem@ == stem_or(icon@));
        let ghost c0 = self.cache();
        let ghost f0 = self.files();
        let found = self.lookup(stem.as_str(), size);
        proof {
            lemma_extends_lookup(c0, self.cache(), (stem@, size), opt_view(found));
        }
        match found {
            Some(path) => Some(path),
            None => {
                proof {
                    reveal_strlit("/");
                }
                assert("/"@ =~= seq!['/']);
                if crate::text::starts_with(icon.as_str(), "/") {
                    let there = self.file_exists(icon.as_str());
                    proof {
                        lemma_extends_lookup(f0, self.files(), icon@, there);
                    }
                    if there {
                        Some(icon)
                    } else {
                        None
                    }
                } else {
                    None
                }
            },
        }
    }
}

/// The views of a list of names.
pub open spec fn name_views(names: Seq<&str>) -> Seq<Seq<char>> {
    names.map_values(|n: &str| n@)
}

/// Resolve the first of `names` anything answers to. Pass what is known,
/// best first: an icon the app named itself, then its application name, then
/// its binary. A name may already be an icon (`application.icon-name`), so
/// the theme is tried before asking which desktop entry the name belongs to.
pub fn icon_for_names(icons: &mut IconResolver, names: &[&str], size: u16) -> (r: Option<String>)
    ensures
        final(icons).theme() == old(icons).theme(),
        final(icons).names() == old(icons).names(),
        extends(old(icons).cache(), final(icons).cache()),
        extends(old(icons).files(), final(icons).files()),
        resolved_settled(final(icons).names(), final(icons).cache(), final(icons).files(), name_views(names@), size),
        opt_view(r) == first_resolved(
            final(icons).names(),
            final(icons).cache(),
            final(icons).files(),
            name_views(names@),
            size,
        ),
{
    let ghost raws = name_views(names@);
    let ghost start = icons.cache();
    let ghost fstart = icons.files();
    let mut i: usize = 0;
    while i < names.len()
        invariant
            raws == name_views(names@),
            i <= names@.len(),
            icons.theme() == old(icons).theme(),
            icons.names() == old(icons).names(),
            extends(start, icons.cache()),
            start == old(icons).cache(),
            extends(fstart, icons.files()),
            fstart == old(icons).files(),
            forall|j: int|
                0 <= j < i ==> name_settled(icons.names(), icons.cache(), icons.files(), #[trigger] raws[j], size)
                    && resolve_spec(icons.names(), icons.cache(), icons.files(), raws[j], size) is None,
        decreases names@.len() - i,
    {
        let ghost before = icons.cache();
        let ghost fbefore = icons.files();
        let q = to_lowercase(undecorate(names[i]));
        assert(q@ == query_name(raws[i as int]));
        let looked = icons.lookup(q.as_str(), size);
        let ghost mid = icons.cache();
        proof {
            lemma_extends_lookup(before, mid, (q@, size), opt_view(looked));
        }
        let found = match looked {
            Some(path) => Some(path),
            None => {
                let e = icons.entry_icon(q.as_str(), size);
                proof {
                    lemma_extends_trans(before, mid, icons.cache());
                    assert(icons.cache()[(q@, size)] == mid[(q@, size)]);
                }
                e
            },
        };
        let ghost now = icons.cache();
        let ghost fnow = icons.files();
        assert(extends(before, now));
        assert(extends(fbefore, fnow));
        proof {
            lemma_extends_trans(start, before, now);
            lemma_extends_trans(fstart, fbefore, fnow);
        }
        assert forall|j: int| 0 <= j < i implies name_settled(
            icons.names(),
            now,
            fnow,
            #[trigger] raws[j],
            size,
        ) && resolve_spec(icons.names(), now, fnow, raws[j], size) is None by {
            lemma_name_stable(icons.names(), before, now, fbefore, fnow, raws[j], size);
        }
        match found {
            Some(path) => {
                assert(name_settled(icons.names(), now, fnow, raws[i as int], size));
                assert(resolve_spec(icons.names(), now, fnow, raws[i as int], size) == Some(path@));
                proof {
                    lemma_skip_unresolved(icons.names(), now, fnow, raws, size, i as int);
                    let rest = raws.subrange(i as int, raws.len() as int);
                    assert(rest[0] == raws[i as int]);
                }
                return Some(path);
            },
            None => {
                assert(name_settled(icons.names(), now, fnow, raws[i as int], size));
            },
        }
        i = i + 1;
    }
    proof {
        lemma_skip_unresolved(icons.names(), icons.cache(), icons.files(), raws, size, i as int);
    }
    None
}

/// [`icon_for_names`], falling back to a generic application icon for names
/// nothing answers to. Still `None` when the theme ships no generic icon,
/// which is the case for a bare `hicolor`.
pub fn icon_for_names_or_default(icons: &mut IconResolver, names: &[&str], size: u16) -> (r:
    Option<String>)
    ensures
        final(icons).theme() == old(icons).theme(),
        final(icons).names() == old(icons).names(),
        extends(old(icons).cache(), final(icons).cache()),
        extends(old(icons).files(), final(icons).files()),
        resolved_settled(final(icons).names(), final(icons).cache(), final(icons).files(), name_views(names@), size),
        first_resolved(final(icons).names(), final(icons).cache(), final(icons).files(), name_views(names@), size) is None
            ==> cached_settled(final(icons).cache(), fallback_names(), size),
        opt_view(r) == match first_resolved(
            final(icons).names(),
            final(icons).cache(),
            final(icons).files(),
            name_views(names@),
            size,
        ) {
            Some(path) => Some(path),
            None => first_cached(final(icons).cache(), fallback_names(), size),
        },
{
    if let Some(path) = icon_for_names(icons, names, size) {
        return Some(path);
    }
    let ghost raws = name_views(names@);
    let ghost mid = icons.cache();
    let ghost fmid = icons.files();
    proof {
        lemma_extends_trans(old(icons).cache(), mid, mid);
        reveal_strlit("application-x-executable");
        reveal_strlit("applications-other");
        reveal_strlit("application-default-icon");
    }
    let fallbacks = ["application-x-executable", "applications-other", "application-default-icon"];
    let ghost fb = fallback_names();
    assert(fb.len() == 3);
    let mut i: usize = 0;
    while i < 3
        invariant
            raws == name_views(names@),
            fb == fallback_names(),
            fb.len() == 3,
            forall|j: int| 0 <= j < 3 ==> #[trigger] fallbacks@[j]@ == fb[j],
            i <= 3,
            icons.theme() == old(icons).theme(),
            icons.names() == old(icons).names(),
            extends(old(icons).cache(), mid),
            extends(mid, icons.cache()),
            extends(old(icons).files(), fmid),
            icons.files() == fmid,
            resolved_settled(icons.names(), mid, fmid, raws, size),
            first_resolved(icons.names(), mid, fmid, raws, size) is None,
            forall|j: int|
                0 <= j < i ==> icons.cache().contains_key((#[trigger] fb[j], size)) && icons.cache()[(
                    fb[j],
                    size,
                )] is None,
        decreases 3 - i,
    {
        let ghost before = icons.cache();
        let found = icons.lookup(fallbacks[i], size);
        proof {
            lemma_extends_lookup(before, icons.cache(), (fb[i as int], size), opt_view(found));
            lemma_extends_trans(mid, before, icons.cache());
            lemma_extends_trans(old(icons).cache(), mid, icons.cache());
        }
        assert forall|j: int| 0 <= j < i implies icons.cache().contains_key(
            (#[trigger] fb[j], size),
        ) && icons.cache()[(fb[j], size)] is None by {
            assert(before.contains_key((fb[j], size)));
        }
        if let Some(path) = found {
            proof {
                lemma_resolved_stable(icons.names(), mid, icons.cache(), fmid, fmid, raws, size);
                lemma_first_cached_at(icons.cache(), fb, size, i as int);
            }
            return Some(path);
        }
        i = i + 1;
    }
    proof {
        lemma_resolved_stable(icons.names(), mid, icons.cache(), fmid, fmid, raws, size);
        lemma_first_cached_at(icons.cache(), fb, size, 3);
    }
    None
}

/// When the first `i` icons are cached misses, the lookups read up to `i` are
/// settled and the answer is what the icon at `i` holds.
proof fn lemma_first_cached_at(
    cache: Map<(Seq<char>, u16), Option<Seq<char>>>,
    icons: Seq<Seq<char>>,
    size: u16,
    i: int,
)
    requires
        0 <= i <= icons.len(),
        forall|j: int|
            0 <= j < i ==> cache.contains_key((#[trigger] icons[j], size)) && cache[(
                icons[j],
                size,
            )] is None,
        i < icons.len() ==> cache.contains_key((icons[i], size)) && cache[(icons[i], size)] is Some,
    ensures
        cached_settled(cache, icons, size),
        first_cached(cache, icons, size) == if i < icons.len() {
            cache[(icons[i], size)]
        } else {
            None
        },
    decreases i,
{
    if i == 0 {
        if icons.len() == 0 {
        }
    } else {
        let t = icons.drop_first();
        assert forall|j: int| 0 <= j < i - 1 implies cache.contains_key((#[trigger] t[j], size))
            && cache[(t[j], size)] is None by {
            assert(t[j] == icons[j + 1]);
        }
        if i < icons.len() {
            assert(t[i - 1] == icons[i]);
        }
        lemma_first_cached_at(cache, t, size, i - 1);
        assert(cache.contains_key((icons[0], size)));
    }
}

} // verus!
