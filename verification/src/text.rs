//! Character-level text operations shared by the matching, rendering and path logic.
use vstd::prelude::*;

verus! {

/// The characters of the lowercase equivalent of a character sequence, as
/// `str::to_lowercase` defines it (Unicode lowercase mapping).
pub uninterp spec fn lowercase(s: Seq<char>) -> Seq<char>;

/// Calls `str::to_lowercase`. Trusted: the returned string's characters are
/// `lowercase` applied to the argument's characters, and it is empty exactly
/// when the argument is (every character lowers to at least one character);
/// nothing more is claimed about the Unicode mapping itself.
#[verifier::external_body]
pub(crate) fn to_lowercase(s: &str) -> (res: String)
    ensures
        res@ == lowercase(s@),
        res@.len() == 0 <==> s@.len() == 0,
{
    s.to_lowercase()
}

/// Calls `String::push`. Trusted: the character is appended at the end.
#[verifier::external_body]
fn push_char(s: &mut String, c: char)
    ensures
        final(s)@ == old(s)@.push(c),
{
    s.push(c);
}

/// The characters of a string slice, in order.
pub fn chars_of(s: &str) -> (v: Vec<char>)
    ensures
        v@ == s@,
{
    let mut v: Vec<char> = Vec::new();
    for c in it: s.chars()
        invariant
            v@ == it.seq().take(it.index() as int),
            it.seq() == s@,
    {
        v.push(c);
    }
    v
}

/// A string made of the given characters.
pub fn string_of(cs: &[char]) -> (s: String)
    ensures
        s@ == cs@,
{
    let mut s = String::new();
    for i in 0..cs.len()
        invariant
            s@ == cs@.take(i as int),
    {
        push_char(&mut s, cs[i]);
        assert(cs@.take(i as int).push(cs@[i as int]) =~= cs@.take(i + 1));
    }
    assert(cs@.take(cs@.len() as int) =~= cs@);
    s
}

/// The lowercase characters of a string slice.
pub fn lower_chars(s: &str) -> (v: Vec<char>)
    ensures
        v@ == lowercase(s@),
        v@.len() == 0 <==> s@.len() == 0,
{
    let l = to_lowercase(s);
    chars_of(l.as_str())
}

/// Unicode `White_Space`: the characters `str::trim` removes.
pub open spec fn is_white_space(c: char) -> bool {
    let u = c as u32;
    ||| (0x09 <= u && u <= 0x0d)
    ||| u == 0x20
    ||| u == 0x85
    ||| u == 0xa0
    ||| u == 0x1680
    ||| (0x2000 <= u && u <= 0x200a)
    ||| u == 0x2028
    ||| u == 0x2029
    ||| u == 0x202f
    ||| u == 0x205f
    ||| u == 0x3000
}

/// Whether a character is Unicode white space.
pub fn white_space(c: char) -> (b: bool)
    ensures
        b == is_white_space(c),
{
    let u = c as u32;
    (0x09 <= u && u <= 0x0d) || u == 0x20 || u == 0x85 || u == 0xa0 || u == 0x1680 || (0x2000
        <= u && u <= 0x200a) || u == 0x2028 || u == 0x2029 || u == 0x202f || u == 0x205f || u
        == 0x3000
}

/// The sequence without its leading white space.
pub open spec fn trim_start(s: Seq<char>) -> Seq<char>
    decreases s.len(),
{
    if s.len() > 0 && is_white_space(s[0]) {
        trim_start(s.drop_first())
    } else {
        s
    }
}

/// The sequence without its trailing white space.
pub open spec fn trim_end(s: Seq<char>) -> Seq<char>
    decreases s.len(),
{
    if s.len() > 0 && is_white_space(s.last()) {
        trim_end(s.drop_last())
    } else {
        s
    }
}

/// The sequence without leading and trailing white space.
pub open spec fn trimmed(s: Seq<char>) -> Seq<char> {
    trim_end(trim_start(s))
}

/// The slice with leading and trailing white space removed.
pub fn trim(s: &str) -> (res: &str)
    ensures
        res@ == trimmed(s@),
{
    let v = chars_of(s);
    let len = v.len();
    let mut i: usize = 0;
    assert(s@.skip(0) =~= s@);
    while i < len && white_space(v[i])
        invariant
            i <= len,
            len == s@.len(),
            v@ == s@,
            trim_start(s@) == trim_start(s@.skip(i as int)),
        decreases len - i,
    {
        assert(s@.skip(i as int).drop_first() =~= s@.skip(i + 1));
        i = i + 1;
    }
    assert(trim_start(s@) == s@.skip(i as int)) by {
        if i < len {
            assert(s@.skip(i as int)[0] == s@[i as int]);
        }
    }
    assert(s@.skip(i as int) =~= s@.subrange(i as int, len as int));
    let mut j: usize = len;
    while j > i && white_space(v[j - 1])
        invariant
            i <= j <= len,
            len == s@.len(),
            v@ == s@,
            trim_end(s@.subrange(i as int, len as int)) == trim_end(
                s@.subrange(i as int, j as int),
            ),
        decreases j,
    {
        assert(s@.subrange(i as int, j as int).drop_last() =~= s@.subrange(i as int, j - 1));
        j = j - 1;
    }
    assert(trim_end(s@.subrange(i as int, j as int)) == s@.subrange(i as int, j as int));
    s.substring_char(i, j)
}

/// `needle` occurs in `hay` starting at position `i`.
pub open spec fn occurs_at(hay: Seq<char>, needle: Seq<char>, i: int) -> bool {
    0 <= i && i + needle.len() <= hay.len() && hay.subrange(i, i + needle.len()) == needle
}

/// `needle` occurs somewhere in `hay` (the empty sequence occurs everywhere).
pub open spec fn seq_contains(hay: Seq<char>, needle: Seq<char>) -> bool {
    exists|i: int| occurs_at(hay, needle, i)
}

/// `hay` begins with `prefix`.
pub open spec fn seq_starts_with(hay: Seq<char>, prefix: Seq<char>) -> bool {
    occurs_at(hay, prefix, 0)
}

/// Whether `needle` occurs in `hay` at position `i`.
pub fn matches_at(hay: &[char], needle: &[char], i: usize) -> (b: bool)
    ensures
        b == occurs_at(hay@, needle@, i as int),
{
    if needle.len() > hay.len() || i > hay.len() - needle.len() {
        return false;
    }
    let mut k: usize = 0;
    while k < needle.len()
        invariant
            k <= needle.len(),
            i + needle.len() <= hay.len(),
            forall|m: int| 0 <= m < k ==> hay@[i + m] == needle@[m],
        decreases needle.len() - k,
    {
        if hay[i + k] != needle[k] {
            assert(hay@.subrange(i as int, i + needle.len())[k as int] != needle@[k as int]);
            return false;
        }
        k = k + 1;
    }
    assert(hay@.subrange(i as int, i + needle.len()) =~= needle@);
    true
}

/// Whether `needle` occurs anywhere in `hay`.
pub fn contains(hay: &[char], needle: &[char]) -> (b: bool)
    ensures
        b == seq_contains(hay@, needle@),
{
    if needle.len() > hay.len() {
        return false;
    }
    let last = hay.len() - needle.len();
    let mut i: usize = 0;
    while i < last
        invariant
            i <= last,
            last == hay.len() - needle.len(),
            needle.len() <= hay.len(),
            forall|k: int| 0 <= k < i ==> !occurs_at(hay@, needle@, k),
        decreases last - i,
    {
        if matches_at(hay, needle, i) {
            return true;
        }
        i = i + 1;
    }
    matches_at(hay, needle, last)
}

/// What either part contains, the two parts joined contain too.
pub proof fn lemma_contains_concat(a: Seq<char>, b: Seq<char>, n: Seq<char>)
    ensures
        seq_contains(a, n) ==> seq_contains(a + b, n),
        seq_contains(b, n) ==> seq_contains(a + b, n),
{
    if seq_contains(a, n) {
        let p = choose|p: int| occurs_at(a, n, p);
        assert((a + b).subrange(p, p + n.len()) =~= a.subrange(p, p + n.len()));
        assert(occurs_at(a + b, n, p));
    }
    if seq_contains(b, n) {
        let p = choose|p: int| occurs_at(b, n, p);
        assert((a + b).subrange(a.len() + p, a.len() + p + n.len()) =~= b.subrange(
            p,
            p + n.len(),
        ));
        assert(occurs_at(a + b, n, a.len() + p));
    }
}

/// A needle without the separator that occurs in `a`, the separator and `b`
/// occurs within `a` or within `b`.
pub proof fn lemma_contains_split(a: Seq<char>, b: Seq<char>, sep: char, n: Seq<char>)
    requires
        seq_contains(a + seq![sep] + b, n),
        !n.contains(sep),
    ensures
        seq_contains(a, n) || seq_contains(b, n),
{
    let h = a + seq![sep] + b;
    let p = choose|p: int| occurs_at(h, n, p);
    if p + n.len() <= a.len() {
        assert(a.subrange(p, p + n.len()) =~= h.subrange(p, p + n.len()));
        assert(occurs_at(a, n, p));
    } else if p > a.len() {
        let q = p - a.len() - 1;
        assert(b.subrange(q, q + n.len()) =~= h.subrange(p, p + n.len()));
        assert(occurs_at(b, n, q));
    } else {
        let k = a.len() - p;
        assert(h.subrange(p, p + n.len())[k] == h[a.len() as int]);
        assert(n[k] == sep);
    }
}

/// Whether `hay` begins with `prefix`.
pub fn starts_with(hay: &[char], prefix: &[char]) -> (b: bool)
    ensures
        b == seq_starts_with(hay@, prefix@),
{
    matches_at(hay, prefix, 0)
}

/// The number of positions `i` below `q.len()` at which `c` has a character
/// equal to `q[i]`.
pub open spec fn positional_matches(q: Seq<char>, c: Seq<char>) -> nat
    decreases q.len(),
{
    if q.len() == 0 {
        0
    } else {
        let i = q.len() - 1;
        positional_matches(q.drop_last(), c) + if i < c.len() && c[i] == q[i] {
            1nat
        } else {
            0nat
        }
    }
}

/// There are never more positional matches than positions.
pub proof fn lemma_positional_matches_bound(q: Seq<char>, c: Seq<char>)
    ensures
        positional_matches(q, c) <= q.len(),
    decreases q.len(),
{
    if q.len() > 0 {
        lemma_positional_matches_bound(q.drop_last(), c);
    }
}

/// A sequence matches itself at every position.
pub proof fn lemma_positional_matches_self(q: Seq<char>)
    ensures
        positional_matches(q, q) == q.len(),
    decreases q.len(),
{
    if q.len() > 0 {
        let p = q.drop_last();
        assert(p =~= q.subrange(0, p.len() as int));
        lemma_positional_matches_prefix(p, p, q);
        lemma_positional_matches_self(p);
    }
}

/// Only the first `q.len()` characters of the candidate matter.
pub proof fn lemma_positional_matches_prefix(q: Seq<char>, c: Seq<char>, d: Seq<char>)
    requires
        q.len() <= c.len(),
        c.len() <= d.len(),
        c == d.subrange(0, c.len() as int),
    ensures
        positional_matches(q, c) == positional_matches(q, d),
    decreases q.len(),
{
    if q.len() > 0 {
        lemma_positional_matches_prefix(q.drop_last(), c, d);
        assert(c[q.len() - 1] == d[q.len() - 1]);
    }
}

/// Counts the positions at which `c` agrees with `q`.
pub fn count_positional_matches(q: &[char], c: &[char]) -> (n: u64)
    ensures
        n == positional_matches(q@, c@),
{
    let mut n: u64 = 0;
    for i in 0..q.len()
        invariant
            n == positional_matches(q@.take(i as int), c@),
            n <= i,
    {
        assert(q@.take(i + 1).drop_last() =~= q@.take(i as int));
        if i < c.len() && c[i] == q[i] {
            n = n + 1;
        }
    }
    assert(q@.take(q@.len() as int) =~= q@);
    n
}

/// A count capped at the largest `i32`.
pub open spec fn saturate_i32(n: int) -> int {
    if n > i32::MAX {
        i32::MAX as int
    } else {
        n
    }
}

/// The parts separated by `sep`.
pub open spec fn join(parts: Seq<Seq<char>>, sep: Seq<char>) -> Seq<char>
    decreases parts.len(),
{
    if parts.len() == 0 {
        Seq::empty()
    } else if parts.len() == 1 {
        parts[0]
    } else {
        join(parts.drop_last(), sep) + sep + parts.last()
    }
}

/// The character sequences of a sequence of strings.
pub open spec fn views(v: Seq<String>) -> Seq<Seq<char>> {
    v.map_values(|s: String| s@)
}

/// The strings joined by `sep`, as `[String]::join` does.
pub fn join_strings(parts: &[String], sep: &str) -> (res: String)
    ensures
        res@ == join(views(parts@), sep@),
{
    let mut res = String::new();
    let ghost all = views(parts@);
    for i in 0..parts.len()
        invariant
            all == views(parts@),
            all.len() == parts@.len(),
            res@ == join(all.take(i as int), sep@),
    {
        assert(all.take(i + 1).drop_last() =~= all.take(i as int));
        if i != 0 {
            res.append(sep);
        } else {
            assert(res@ =~= Seq::<char>::empty());
        }
        res.append(parts[i].as_str());
        assert(all.take(i + 1).last() == parts@[i as int]@);
        assert(res@ =~= join(all.take(i + 1), sep@));
    }
    assert(all.take(parts@.len() as int) =~= all);
    res
}

/// A relative path appended to a base path, as `Path::join` does for a
/// relative second part: an empty base gives the relative part itself, and a
/// separator is inserted unless the base already ends with one.
pub open spec fn path_join(base: Seq<char>, rel: Seq<char>) -> Seq<char> {
    if base.len() == 0 {
        rel
    } else if base.last() == '/' {
        base + rel
    } else {
        base + seq!['/'] + rel
    }
}

/// Joins a relative path onto a base path.
pub fn join_path(base: &str, rel: &str) -> (res: String)
    ensures
        res@ == path_join(base@, rel@),
{
    let b = chars_of(base);
    if b.len() == 0 {
        return rel.to_owned();
    }
    let mut res = base.to_owned();
    if b[b.len() - 1] != '/' {
        push_char(&mut res, '/');
    }
    res.append(rel);
    res
}

/// The contents of an optional string.
pub open spec fn opt_view(o: Option<String>) -> Option<Seq<char>> {
    match o {
        Some(s) => Some(s@),
        None => None,
    }
}

/// Equality of two string slices.
pub fn str_eq(a: &str, b: &str) -> (r: bool)
    ensures
        r == (a@ == b@),
{
    let x = a.to_owned();
    let y = b.to_owned();
    x == y
}

} // verus!
