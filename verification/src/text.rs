//! Character-level helpers over `str`, each tied to a statement over the
//! string's view.

use vstd::prelude::*;

verus! {

/// The characters of `s`, in order.
pub fn chars_of(s: &str) -> (v: Vec<char>)
    ensures
        v@ == s@,
{
    let mut v: Vec<char> = Vec::new();
    for c in it: s.chars()
        invariant
            v@ == it.seq().take(it.index() as int),
    {
        v.push(c);
    }
    v
}

/// The Unicode `White_Space` property, as listed in PropList.txt.
pub open spec fn is_white_space(c: char) -> bool {
    let v = c as u32;
    ||| 0x9 <= v <= 0xd
    ||| v == 0x20
    ||| v == 0x85
    ||| v == 0xa0
    ||| v == 0x1680
    ||| 0x2000 <= v <= 0x200a
    ||| v == 0x2028
    ||| v == 0x2029
    ||| v == 0x202f
    ||| v == 0x205f
    ||| v == 0x3000
}

/// Whether `c` is Unicode white space.
pub fn is_whitespace(c: char) -> (r: bool)
    ensures
        r == is_white_space(c),
{
    let v = c as u32;
    (0x9 <= v && v <= 0xd) || v == 0x20 || v == 0x85 || v == 0xa0 || v == 0x1680 || (0x2000 <= v
        && v <= 0x200a) || v == 0x2028 || v == 0x2029 || v == 0x202f || v == 0x205f || v == 0x3000
}

/// The characters a trim removes: white space, or one given character.
#[derive(Clone, Copy)]
pub enum Strip {
    WhiteSpace,
    Char(char),
}

/// `c` is what `k` strips.
pub open spec fn strips(k: Strip, c: char) -> bool {
    match k {
        Strip::WhiteSpace => is_white_space(c),
        Strip::Char(x) => c == x,
    }
}

fn strips_exec(k: Strip, c: char) -> (r: bool)
    ensures
        r == strips(k, c),
{
    match k {
        Strip::WhiteSpace => is_whitespace(c),
        Strip::Char(x) => c == x,
    }
}

/// `s` with every leading character of class `k` removed.
pub open spec fn trim_start_by(s: Seq<char>, k: Strip) -> Seq<char>
    decreases s.len(),
{
    if s.len() > 0 && strips(k, s[0]) {
        trim_start_by(s.drop_first(), k)
    } else {
        s
    }
}

/// `s` with every trailing character of class `k` removed.
pub open spec fn trim_end_by(s: Seq<char>, k: Strip) -> Seq<char>
    decreases s.len(),
{
    if s.len() > 0 && strips(k, s.last()) {
        trim_end_by(s.drop_last(), k)
    } else {
        s
    }
}

/// `s` with the characters of class `k` removed from both ends.
pub open spec fn trim_by(s: Seq<char>, k: Strip) -> Seq<char> {
    trim_end_by(trim_start_by(s, k), k)
}

/// `str::trim` (`k` white space) and `str::trim_matches` with one character.
pub fn trim_with(s: &str, k: Strip) -> (r: &str)
    ensures
        r@ == trim_by(s@, k),
{
    let cs = chars_of(s);
    let n = cs.len();
    let mut a: usize = 0;
    assert(s@.subrange(0, n as int) =~= s@);
    while a < n && strips_exec(k, cs[a])
        invariant
            cs@ == s@,
            n == s@.len(),
            a <= n,
            trim_start_by(s@, k) == trim_start_by(s@.subrange(a as int, n as int), k),
        decreases n - a,
    {
        assert(s@.subrange(a as int, n as int).drop_first() =~= s@.subrange(
            a + 1,
            n as int,
        ));
        a = a + 1;
    }
    assert(trim_start_by(s@, k) == s@.subrange(a as int, n as int));
    let mut b: usize = n;
    while b > a && strips_exec(k, cs[b - 1])
        invariant
            cs@ == s@,
            n == s@.len(),
            a <= b <= n,
            trim_by(s@, k) == trim_end_by(s@.subrange(a as int, b as int), k),
        decreases b,
    {
        assert(s@.subrange(a as int, b as int).drop_last() =~= s@.subrange(
            a as int,
            b - 1,
        ));
        b = b - 1;
    }
    s.substring_char(a, b)
}

/// `str::trim`.
pub fn trim(s: &str) -> (r: &str)
    ensures
        r@ == trim_by(s@, Strip::WhiteSpace),
{
    trim_with(s, Strip::WhiteSpace)
}

/// `s` begins with `prefix`.
pub open spec fn is_prefix(prefix: Seq<char>, s: Seq<char>) -> bool {
    prefix.len() <= s.len() && s.subrange(0, prefix.len() as int) == prefix
}

/// `s` ends with `suffix`.
pub open spec fn is_suffix(suffix: Seq<char>, s: Seq<char>) -> bool {
    suffix.len() <= s.len() && s.subrange(s.len() - suffix.len(), s.len() as int) == suffix
}

/// `pat` occurs in `s` at character index `i`.
pub open spec fn occurs_at(s: Seq<char>, pat: Seq<char>, i: int) -> bool {
    0 <= i && i + pat.len() <= s.len() && s.subrange(i, i + pat.len()) == pat
}

fn matches_at(cs: &Vec<char>, ps: &Vec<char>, i: usize) -> (r: bool)
    requires
        i + ps@.len() <= cs@.len(),
    ensures
        r == occurs_at(cs@, ps@, i as int),
{
    let m = ps.len();
    let mut j: usize = 0;
    while j < m
        invariant
            m == ps@.len(),
            i + m <= cs.len(),
            j <= m,
            forall|t: int| 0 <= t < j ==> cs@[i + t] == ps@[t],
        decreases m - j,
    {
        if cs[i + j] != ps[j] {
            assert(cs@.subrange(i as int, i + m)[j as int] != ps@[j as int]);
            return false;
        }
        j = j + 1;
    }
    assert(cs@.subrange(i as int, i + m) =~= ps@);
    true
}

/// Whether `s` starts with `prefix`.
pub fn starts_with(s: &str, prefix: &str) -> (r: bool)
    ensures
        r == is_prefix(prefix@, s@),
{
    let cs = chars_of(s);
    let ps = chars_of(prefix);
    if ps.len() > cs.len() {
        return false;
    }
    matches_at(&cs, &ps, 0)
}

/// Whether `s` ends with `suffix`.
pub fn ends_with(s: &str, suffix: &str) -> (r: bool)
    ensures
        r == is_suffix(suffix@, s@),
{
    let cs = chars_of(s);
    let ps = chars_of(suffix);
    if ps.len() > cs.len() {
        return false;
    }
    matches_at(&cs, &ps, cs.len() - ps.len())
}

/// `str::strip_prefix`.
pub fn strip_prefix<'a>(s: &'a str, prefix: &str) -> (r: Option<&'a str>)
    ensures
        match r {
            Some(rest) => is_prefix(prefix@, s@) && rest@ == s@.subrange(
                prefix@.len() as int,
                s@.len() as int,
            ),
            None => !is_prefix(prefix@, s@),
        },
{
    if starts_with(s, prefix) {
        Some(s.substring_char(prefix.unicode_len(), s.unicode_len()))
    } else {
        None
    }
}

/// `str::strip_suffix`.
pub fn strip_suffix<'a>(s: &'a str, suffix: &str) -> (r: Option<&'a str>)
    ensures
        match r {
            Some(rest) => is_suffix(suffix@, s@) && rest@ == s@.subrange(
                0,
                s@.len() - suffix@.len(),
            ),
            None => !is_suffix(suffix@, s@),
        },
{
    if ends_with(s, suffix) {
        Some(s.substring_char(0, s.unicode_len() - suffix.unicode_len()))
    } else {
        None
    }
}


/// `i` is the first place `pat` occurs in `s`.
pub open spec fn is_first_occurrence(s: Seq<char>, pat: Seq<char>, i: int) -> bool {
    occurs_at(s, pat, i) && forall|j: int| 0 <= j < i ==> !occurs_at(s, pat, j)
}

/// The index of the first occurrence of `pat` in `s`, if any.
pub open spec fn first_occurrence(s: Seq<char>, pat: Seq<char>) -> Option<int> {
    if exists|i: int| is_first_occurrence(s, pat, i) {
        Some(choose|i: int| is_first_occurrence(s, pat, i))
    } else {
        None
    }
}

/// A first occurrence is unique.
pub proof fn lemma_first_occurrence_is(s: Seq<char>, pat: Seq<char>, i: int)
    requires
        is_first_occurrence(s, pat, i),
    ensures
        first_occurrence(s, pat) == Some(i),
{
    let j = choose|j: int| is_first_occurrence(s, pat, j);
    assert(is_first_occurrence(s, pat, j));
    if j < i {
        assert(!occurs_at(s, pat, j));
    }
    if i < j {
        assert(!occurs_at(s, pat, i));
    }
}

/// With no occurrence anywhere there is no first one.
pub proof fn lemma_no_occurrence(s: Seq<char>, pat: Seq<char>)
    requires
        forall|i: int| !occurs_at(s, pat, i),
    ensures
        first_occurrence(s, pat) is None,
{
}

/// Where `pat` occurs first in `s` (`str::find`), as a character index.
pub fn find(s: &str, pat: &str) -> (r: Option<usize>)
    ensures
        match r {
            Some(i) => first_occurrence(s@, pat@) == Some(i as int),
            None => first_occurrence(s@, pat@) is None,
        },
{
    let cs = chars_of(s);
    let ps = chars_of(pat);
    let n = cs.len();
    let m = ps.len();
    if m > n {
        assert forall|i: int| !occurs_at(s@, pat@, i) by {}
        proof {
            lemma_no_occurrence(s@, pat@);
        }
        return None;
    }
    if m == 0 {
        assert(s@.subrange(0, 0) =~= pat@);
        proof {
            lemma_first_occurrence_is(s@, pat@, 0);
        }
        return Some(0);
    }
    let mut i: usize = 0;
    while i <= n - m
        invariant
            cs@ == s@,
            ps@ == pat@,
            n == s@.len(),
            m == pat@.len(),
            0 < m <= n,
            i <= n - m + 1,
            forall|j: int| 0 <= j < i ==> !occurs_at(s@, pat@, j),
        decreases n - m + 1 - i,
    {
        if matches_at(&cs, &ps, i) {
            proof {
                lemma_first_occurrence_is(s@, pat@, i as int);
            }
            return Some(i);
        }
        i = i + 1;
    }
    assert forall|j: int| !occurs_at(s@, pat@, j) by {
        if 0 <= j < i {
        }
    }
    proof {
        lemma_no_occurrence(s@, pat@);
    }
    None
}

/// What `str::split_once` returns, as views.
pub open spec fn split_once_spec(s: Seq<char>, pat: Seq<char>) -> Option<(Seq<char>, Seq<char>)> {
    match first_occurrence(s, pat) {
        Some(i) => Some((s.subrange(0, i), s.subrange(i + pat.len(), s.len() as int))),
        None => None,
    }
}

/// `str::split_once`: the parts before and after the first `pat`.
pub fn split_once<'a>(s: &'a str, pat: &str) -> (r: Option<(&'a str, &'a str)>)
    ensures
        match r {
            Some((a, b)) => split_once_spec(s@, pat@) == Some((a@, b@)),
            None => split_once_spec(s@, pat@) is None,
        },
{
    match find(s, pat) {
        Some(i) => {
            let n = s.unicode_len();
            let m = pat.unicode_len();
            proof {
                let j = choose|j: int| is_first_occurrence(s@, pat@, j);
                assert(is_first_occurrence(s@, pat@, j));
            }
            Some((s.substring_char(0, i), s.substring_char(i + m, n)))
        },
        None => None,
    }
}

/// What follows the last `c` in `s`, or all of `s` (`s.rsplit(c).next()`).
pub open spec fn after_last(s: Seq<char>, c: char) -> Seq<char>
    decreases s.len(),
{
    if s.len() == 0 {
        s
    } else if s.last() == c {
        Seq::empty()
    } else {
        after_last(s.drop_last(), c).push(s.last())
    }
}

/// The last `c`-separated segment of `s`.
pub fn last_segment(s: &str, c: char) -> (r: &str)
    ensures
        r@ == after_last(s@, c),
{
    let cs = chars_of(s);
    let n = cs.len();
    let mut b: usize = n;
    assert(s@.subrange(0, n as int) =~= s@);
    assert(s@.subrange(n as int, n as int) =~= Seq::<char>::empty());
    while b > 0 && cs[b - 1] != c
        invariant
            cs@ == s@,
            n == s@.len(),
            b <= n,
            after_last(s@, c) == after_last(s@.subrange(0, b as int), c) + s@.subrange(
                b as int,
                n as int,
            ),
        decreases b,
    {
        let ghost pre = s@.subrange(0, b as int);
        assert(pre.drop_last() =~= s@.subrange(0, b - 1));
        assert(after_last(pre, c) == after_last(pre.drop_last(), c).push(pre.last()));
        assert(after_last(pre.drop_last(), c).push(pre.last()) + s@.subrange(b as int, n as int)
            =~= after_last(pre.drop_last(), c) + s@.subrange(b - 1, n as int));
        b = b - 1;
    }
    assert(after_last(s@.subrange(0, b as int), c) =~= Seq::<char>::empty());
    assert(Seq::<char>::empty() + s@.subrange(b as int, n as int) =~= s@.subrange(
        b as int,
        n as int,
    ));
    s.substring_char(b, n)
}

/// The leading run of `s` that holds no white space.
pub open spec fn take_word(s: Seq<char>) -> Seq<char>
    decreases s.len(),
{
    if s.len() == 0 || is_white_space(s[0]) {
        Seq::empty()
    } else {
        seq![s[0]] + take_word(s.drop_first())
    }
}

/// The first white-space separated word of `s` (`s.split_whitespace().next()`).
pub open spec fn first_word(s: Seq<char>) -> Option<Seq<char>> {
    let t = trim_start_by(s, Strip::WhiteSpace);
    if t.len() == 0 {
        None
    } else {
        Some(take_word(t))
    }
}

/// `s.split_whitespace().next()`.
pub fn first_word_of(s: &str) -> (r: Option<&str>)
    ensures
        match r {
            Some(w) => first_word(s@) == Some(w@),
            None => first_word(s@) is None,
        },
{
    let cs = chars_of(s);
    let n = cs.len();
    let mut a: usize = 0;
    assert(s@.subrange(0, n as int) =~= s@);
    while a < n && is_whitespace(cs[a])
        invariant
            cs@ == s@,
            n == s@.len(),
            a <= n,
            trim_start_by(s@, Strip::WhiteSpace) == trim_start_by(
                s@.subrange(a as int, n as int),
                Strip::WhiteSpace,
            ),
        decreases n - a,
    {
        assert(s@.subrange(a as int, n as int).drop_first() =~= s@.subrange(a + 1, n as int));
        a = a + 1;
    }
    if a == n {
        return None;
    }
    let mut b: usize = a;
    assert(s@.subrange(a as int, a as int) + take_word(s@.subrange(a as int, n as int))
        =~= take_word(s@.subrange(a as int, n as int)));
    while b < n && !is_whitespace(cs[b])
        invariant
            cs@ == s@,
            n == s@.len(),
            a <= b <= n,
            take_word(s@.subrange(a as int, n as int)) == s@.subrange(a as int, b as int)
                + take_word(s@.subrange(b as int, n as int)),
        decreases n - b,
    {
        let ghost rest = s@.subrange(b as int, n as int);
        assert(rest.drop_first() =~= s@.subrange(b + 1, n as int));
        assert(s@.subrange(a as int, b as int) + (seq![rest[0]] + take_word(rest.drop_first()))
            =~= s@.subrange(a as int, b + 1) + take_word(s@.subrange(b + 1, n as int)));
        b = b + 1;
    }
    assert(take_word(s@.subrange(b as int, n as int)) =~= Seq::<char>::empty());
    assert(s@.subrange(a as int, b as int) + Seq::<char>::empty() =~= s@.subrange(
        a as int,
        b as int,
    ));
    Some(s.substring_char(a, b))
}


/// `s` with every occurrence of `pat` replaced by `with`, scanning left to
/// right without overlap, as `str::replace` does for a non-empty pattern.
pub open spec fn replace_all_spec(s: Seq<char>, pat: Seq<char>, with: Seq<char>) -> Seq<char>
    decreases s.len(),
{
    if pat.len() == 0 {
        s
    } else {
        match first_occurrence(s, pat) {
            Some(i) => if 0 <= i && i + pat.len() <= s.len() {
                s.subrange(0, i) + with + replace_all_spec(
                    s.subrange(i + pat.len(), s.len() as int),
                    pat,
                    with,
                )
            } else {
                s
            },
            None => s,
        }
    }
}

/// `str::replace` with a non-empty pattern.
pub fn replace_all(s: &str, pat: &str, with: &str) -> (r: String)
    requires
        pat@.len() > 0,
    ensures
        r@ == replace_all_spec(s@, pat@, with@),
{
    let n = s.unicode_len();
    let m = pat.unicode_len();
    let mut out = String::new();
    let mut p: usize = 0;
    assert(s@.subrange(0, n as int) =~= s@);
    assert(out@ + s@ =~= s@);
    loop
        invariant
            n == s@.len(),
            m == pat@.len(),
            m > 0,
            p <= n,
            replace_all_spec(s@, pat@, with@) == out@ + replace_all_spec(
                s@.subrange(p as int, n as int),
                pat@,
                with@,
            ),
        decreases n - p,
    {
        let rest = s.substring_char(p, n);
        match find(rest, pat) {
            Some(i) => {
                proof {
                    let j = choose|j: int| is_first_occurrence(rest@, pat@, j);
                    assert(is_first_occurrence(rest@, pat@, j));
                    assert(rest@.subrange(i + m, rest@.len() as int) =~= s@.subrange(
                        p + i + m,
                        n as int,
                    ));
                }
                let before = rest.substring_char(0, i);
                let ghost old_out = out@;
                out.append(before);
                out.append(with);
                assert(old_out + (rest@.subrange(0, i as int) + with@ + replace_all_spec(
                    s@.subrange(p + i + m, n as int),
                    pat@,
                    with@,
                )) =~= out@ + replace_all_spec(s@.subrange(p + i + m, n as int), pat@, with@));
                p = p + i + m;
            },
            None => {
                out.append(rest);
                return out;
            },
        }
    }
}

/// Names what `str::to_lowercase` returns for a string: the Unicode
/// lowercase mapping of each character, with its context rules.
pub uninterp spec fn lowercase(s: Seq<char>) -> Seq<char>;

/// A character below 128.
pub open spec fn is_ascii_char(c: char) -> bool {
    (c as u32) < 128
}

/// `c` with an ASCII capital letter turned into its small letter.
pub open spec fn ascii_lower_char(c: char) -> char {
    if 65 <= (c as u32) <= 90 {
        ((c as u32) + 32) as char
    } else {
        c
    }
}

/// `s` with every ASCII capital letter turned into its small letter.
pub open spec fn ascii_lower(s: Seq<char>) -> Seq<char> {
    s.map_values(|c: char| ascii_lower_char(c))
}

/// Every character of `s` is below 128.
pub open spec fn all_ascii(s: Seq<char>) -> bool {
    forall|i: int| 0 <= i < s.len() ==> is_ascii_char(#[trigger] s[i])
}

/// What `str::to_lowercase` gives for `s`: on an ASCII string, the small
/// letter for each capital and every other character as it is, which is
/// what the Unicode lowercase mapping does there; otherwise only named.
pub open spec fn lowered(s: Seq<char>) -> Seq<char> {
    if all_ascii(s) {
        ascii_lower(s)
    } else {
        lowercase(s)
    }
}

/// Calls `str::to_lowercase`. On an ASCII string the contract states the
/// result: capitals become small letters, the rest stays; on any other
/// string the result is only named, as depending on the characters of `s`
/// alone.
#[verifier::external_body]
pub(crate) fn to_lowercase(s: &str) -> (r: String)
    ensures
        all_ascii(s@) ==> r@ == ascii_lower(s@),
        !all_ascii(s@) ==> r@ == lowercase(s@),
{
    s.to_lowercase()
}

/// An ASCII decimal digit.
pub open spec fn is_digit(c: char) -> bool {
    48 <= (c as u32) <= 57
}

/// Every character of `s` is a decimal digit.
pub open spec fn all_digits(s: Seq<char>) -> bool {
    forall|i: int| 0 <= i < s.len() ==> is_digit(#[trigger] s[i])
}

/// The number the decimal digits `s` spell.
pub open spec fn digits_value(s: Seq<char>) -> int
    decreases s.len(),
{
    if s.len() == 0 {
        0
    } else {
        digits_value(s.drop_last()) * 10 + ((s.last() as u32) - 48)
    }
}

/// What `<uN as FromStr>::from_str` accepts: an optional `+`, then at least
/// one ASCII digit, with a value no greater than `max`.
pub open spec fn parse_unsigned(s: Seq<char>, max: int) -> Option<int> {
    let d = if s.len() > 0 && s[0] == '+' {
        s.drop_first()
    } else {
        s
    };
    if d.len() > 0 && all_digits(d) && digits_value(d) <= max {
        Some(digits_value(d))
    } else {
        None
    }
}

/// What `<iN as FromStr>::from_str` accepts: a `-` and digits whose negated
/// value is at least `min`, or what `parse_unsigned` accepts up to `max`.
pub open spec fn parse_signed(s: Seq<char>, min: int, max: int) -> Option<int> {
    if s.len() > 0 && s[0] == '-' {
        let d = s.drop_first();
        if d.len() > 0 && all_digits(d) && -digits_value(d) >= min {
            Some(-digits_value(d))
        } else {
            None
        }
    } else {
        parse_unsigned(s, max)
    }
}

proof fn lemma_digits_value_prefix(t: Seq<char>, k: int)
    requires
        all_digits(t),
        0 <= k <= t.len(),
    ensures
        0 <= digits_value(t.take(k)) <= digits_value(t),
    decreases t.len(),
{
    if k == t.len() {
        assert(t.take(k) =~= t);
        lemma_digits_value_nonneg(t);
    } else {
        let u = t.drop_last();
        assert(u.take(k) =~= t.take(k));
        lemma_digits_value_prefix(u, k);
        lemma_digits_value_nonneg(u);
    }
}

proof fn lemma_digits_value_nonneg(t: Seq<char>)
    requires
        all_digits(t),
    ensures
        digits_value(t) >= 0,
    decreases t.len(),
{
    if t.len() > 0 {
        lemma_digits_value_nonneg(t.drop_last());
    }
}

/// Reads the digits `cs[start..]` as a number no greater than `max`.
fn parse_digits(cs: &Vec<char>, start: usize, max: u64) -> (r: Option<u64>)
    requires
        start <= cs@.len(),
        max >= 9,
    ensures
        match r {
            Some(v) => {
                let d = cs@.subrange(start as int, cs@.len() as int);
                d.len() > 0 && all_digits(d) && digits_value(d) <= max && v == digits_value(d)
            },
            None => {
                let d = cs@.subrange(start as int, cs@.len() as int);
                !(d.len() > 0 && all_digits(d) && digits_value(d) <= max)
            },
        },
{
    let n = cs.len();
    if start == n {
        return None;
    }
    let mut acc: u64 = 0;
    let mut i: usize = start;
    assert(cs@.subrange(start as int, start as int) =~= Seq::<char>::empty());
    while i < n
        invariant
            n == cs@.len(),
            start <= i <= n,
            start < n,
            all_digits(cs@.subrange(start as int, i as int)),
            max >= 9,
            acc == digits_value(cs@.subrange(start as int, i as int)),
            acc <= max,
        decreases n - i,
    {
        let c = cs[i];
        let cv = c as u32;
        let ghost d = cs@.subrange(start as int, n as int);
        if !(cv >= 48 && cv <= 57) {
            assert(d[i - start] == c);
            return None;
        }
        let v = (cv - 48) as u64;
        assert(v <= 9);
        let ghost pre = cs@.subrange(start as int, i + 1);
        assert(pre.drop_last() =~= cs@.subrange(start as int, i as int));
        assert(all_digits(pre));
        if acc > (max - v) / 10 {
            assert(acc * 10 + v > max) by (nonlinear_arith)
                requires
                    acc > (max - v) / 10,
                    v <= 9,
                    v <= max || v > max,
            ;
            proof {
                if all_digits(d) {
                    assert(d.take(i + 1 - start) =~= pre);
                    lemma_digits_value_prefix(d, i + 1 - start);
                }
            }
            return None;
        }
        assert(acc * 10 + v <= max) by (nonlinear_arith)
            requires
                acc <= (max - v) / 10,
                v <= max,
        ;
        acc = acc * 10 + v;
        i = i + 1;
    }
    Some(acc)
}

/// `<u64 as FromStr>::from_str`, without its error value.
pub fn parse_u64(s: &str) -> (r: Option<u64>)
    ensures
        match r {
            Some(v) => parse_unsigned(s@, u64::MAX as int) == Some(v as int),
            None => parse_unsigned(s@, u64::MAX as int) is None,
        },
{
    let cs = chars_of(s);
    let start: usize = if cs.len() > 0 && cs[0] == '+' {
        1
    } else {
        0
    };
    assert(cs@.subrange(start as int, cs@.len() as int) =~= (if s@.len() > 0 && s@[0] == '+' {
        s@.drop_first()
    } else {
        s@
    }));
    parse_digits(&cs, start, u64::MAX)
}

/// `<u32 as FromStr>::from_str`, without its error value.
pub fn parse_u32(s: &str) -> (r: Option<u32>)
    ensures
        match r {
            Some(v) => parse_unsigned(s@, u32::MAX as int) == Some(v as int),
            None => parse_unsigned(s@, u32::MAX as int) is None,
        },
{
    let cs = chars_of(s);
    let start: usize = if cs.len() > 0 && cs[0] == '+' {
        1
    } else {
        0
    };
    assert(cs@.subrange(start as int, cs@.len() as int) =~= (if s@.len() > 0 && s@[0] == '+' {
        s@.drop_first()
    } else {
        s@
    }));
    match parse_digits(&cs, start, u32::MAX as u64) {
        Some(v) => Some(v as u32),
        None => None,
    }
}

/// `<i32 as FromStr>::from_str`, without its error value.
pub fn parse_i32(s: &str) -> (r: Option<i32>)
    ensures
        match r {
            Some(v) => parse_signed(s@, i32::MIN as int, i32::MAX as int) == Some(v as int),
            None => parse_signed(s@, i32::MIN as int, i32::MAX as int) is None,
        },
{
    let cs = chars_of(s);
    if cs.len() > 0 && cs[0] == '-' {
        assert(cs@.subrange(1, cs@.len() as int) =~= s@.drop_first());
        match parse_digits(&cs, 1, 2147483648) {
            Some(v) => Some((0i64 - (v as i64)) as i32),
            None => None,
        }
    } else {
        let start: usize = if cs.len() > 0 && cs[0] == '+' {
            1
        } else {
            0
        };
        assert(cs@.subrange(start as int, cs@.len() as int) =~= (if s@.len() > 0 && s@[0]
            == '+' {
            s@.drop_first()
        } else {
            s@
        }));
        match parse_digits(&cs, start, i32::MAX as u64) {
            Some(v) => Some(v as i32),
            None => None,
        }
    }
}

/// Lexicographic order on characters by code point; on UTF-8 strings it is
/// the byte order `String`'s `Ord` uses.
pub open spec fn lex_lt(a: Seq<char>, b: Seq<char>) -> bool
    decreases a.len(),
{
    if a.len() == 0 {
        b.len() > 0
    } else if b.len() == 0 {
        false
    } else if a[0] != b[0] {
        a[0] < b[0]
    } else {
        lex_lt(a.drop_first(), b.drop_first())
    }
}

/// `a < b` for strings.
pub fn str_lt(a: &str, b: &str) -> (r: bool)
    ensures
        r == lex_lt(a@, b@),
{
    let ac = chars_of(a);
    let bc = chars_of(b);
    let n = ac.len();
    let m = bc.len();
    let mut i: usize = 0;
    assert(a@.subrange(0, n as int) =~= a@);
    assert(b@.subrange(0, m as int) =~= b@);
    while i < n && i < m && ac[i] == bc[i]
        invariant
            ac@ == a@,
            bc@ == b@,
            n == a@.len(),
            m == b@.len(),
            i <= n,
            i <= m,
            lex_lt(a@, b@) == lex_lt(a@.subrange(i as int, n as int), b@.subrange(i as int, m as int)),
        decreases n - i,
    {
        assert(a@.subrange(i as int, n as int).drop_first() =~= a@.subrange(i + 1, n as int));
        assert(b@.subrange(i as int, m as int).drop_first() =~= b@.subrange(i + 1, m as int));
        i = i + 1;
    }
    if i == n {
        i < m
    } else if i == m {
        false
    } else {
        ac[i] < bc[i]
    }
}

/// `lex_lt` is irreflexive.
pub proof fn lemma_lex_lt_irreflexive(a: Seq<char>)
    ensures
        !lex_lt(a, a),
    decreases a.len(),
{
    if a.len() > 0 {
        lemma_lex_lt_irreflexive(a.drop_first());
    }
}

/// Two different strings are ordered one way or the other.
pub proof fn lemma_lex_lt_total(a: Seq<char>, b: Seq<char>)
    ensures
        a != b ==> (lex_lt(a, b) || lex_lt(b, a)),
    decreases a.len(),
{
    if a.len() == 0 {
        if b.len() == 0 {
            assert(a =~= b);
        }
    } else if b.len() == 0 {
    } else if a[0] != b[0] {
    } else {
        lemma_lex_lt_total(a.drop_first(), b.drop_first());
        if a.drop_first() == b.drop_first() {
            assert(a =~= b) by {
                assert(a.drop_first().len() == a.len() - 1);
                assert(b.drop_first().len() == b.len() - 1);
                assert(a.len() == b.len());
                assert forall|i: int| 0 <= i < a.len() implies a[i] == b[i] by {
                    if i > 0 {
                        assert(a[i] == a.drop_first()[i - 1]);
                        assert(b[i] == b.drop_first()[i - 1]);
                    }
                }
            }
        }
    }
}

/// `lex_lt` is asymmetric and transitive.
pub proof fn lemma_lex_lt_trans(a: Seq<char>, b: Seq<char>, c: Seq<char>)
    ensures
        lex_lt(a, b) ==> !lex_lt(b, a),
        lex_lt(a, b) && lex_lt(b, c) ==> lex_lt(a, c),
    decreases a.len(),
{
    if a.len() > 0 && b.len() > 0 {
        if c.len() > 0 {
            lemma_lex_lt_trans(a.drop_first(), b.drop_first(), c.drop_first());
        } else {
            lemma_lex_lt_trans(a.drop_first(), b.drop_first(), b.drop_first());
        }
    }
}


/// `a == b` for strings.
pub fn str_eq(a: &str, b: &str) -> (r: bool)
    ensures
        r == (a@ == b@),
{
    let ac = chars_of(a);
    let bc = chars_of(b);
    if ac.len() != bc.len() {
        return false;
    }
    let mut i: usize = 0;
    while i < ac.len()
        invariant
            ac@ == a@,
            bc@ == b@,
            ac@.len() == bc@.len(),
            i <= ac@.len(),
            forall|j: int| 0 <= j < i ==> ac@[j] == bc@[j],
        decreases ac@.len() - i,
    {
        if ac[i] != bc[i] {
            return false;
        }
        i = i + 1;
    }
    assert(a@ =~= b@);
    true
}

} // verus!
