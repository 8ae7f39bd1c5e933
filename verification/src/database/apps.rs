//! The catalogue of applications and the rules by which a query finds them.
use vstd::prelude::*;

use crate::database::search::SearchResult;
use crate::error::Error;
use crate::models::app::{app_views, spec_contains_query, AppView};
use crate::models::App;
use crate::text::{
    chars_of, contains, count_positional_matches, join, join_strings, lemma_contains_concat,
    lemma_contains_split, lemma_positional_matches_bound, lowercase, positional_matches,
    saturate_i32, seq_contains, str_eq, to_lowercase, trim, trimmed,
};

verus! {

/// The catalogue of applications, in file order.
#[derive(Debug)]
pub struct AppDatabase {
    apps: Vec<App>,
    source: String,
}

impl View for AppDatabase {
    type V = Seq<AppView>;

    closed spec fn view(&self) -> Seq<AppView> {
        app_views(self.apps@)
    }
}

/// The query as matching sees it: without surrounding white space, lowercased.
pub open spec fn normalized(query: Seq<char>) -> Seq<char> {
    lowercase(trimmed(query))
}

/// The application's lowercased name, or one of its lowercased aliases, is
/// exactly `n`.
pub open spec fn exact_match(app: AppView, n: Seq<char>) -> bool {
    lowercase(app.name) == n || exists|k: int|
        0 <= k < app.aliases.len() && #[trigger] lowercase(app.aliases[k]) == n
}

/// `i` is the first position of `s` whose element satisfies `p`.
pub open spec fn is_first(s: Seq<AppView>, p: spec_fn(AppView) -> bool, i: int) -> bool {
    0 <= i < s.len() && p(s[i]) && forall|j: int| 0 <= j < i ==> !p(#[trigger] s[j])
}

/// The first position of `s` whose element satisfies `p`, if any.
pub open spec fn first_where(s: Seq<AppView>, p: spec_fn(AppView) -> bool) -> Option<int> {
    if exists|i: int| is_first(s, p, i) {
        Some(choose|i: int| is_first(s, p, i))
    } else {
        None
    }
}

/// The application's lowercased name or an alias equals `n`.
pub open spec fn exact_pred(n: Seq<char>) -> spec_fn(AppView) -> bool {
    |a: AppView| exact_match(a, n)
}

/// The application's lowercased text contains `n`.
pub open spec fn loose_pred(n: Seq<char>) -> spec_fn(AppView) -> bool {
    |a: AppView| spec_contains_query(a, n)
}

/// The application a query selects: for a non-empty normalized query, the
/// first exact match by name or alias, else the first application whose text
/// contains the query.
pub open spec fn find_target(apps: Seq<AppView>, query: Seq<char>) -> Option<AppView> {
    let n = normalized(query);
    if n.len() == 0 {
        None
    } else {
        match first_where(apps, exact_pred(n)) {
            Some(i) => Some(apps[i]),
            None => match first_where(apps, loose_pred(n)) {
                Some(i) => Some(apps[i]),
                None => None,
            },
        }
    }
}

/// How well an application matches an already normalized query: 100 when its
/// lowercased "name aliases" text contains the query, 50 when its name or
/// aliases alone do, and otherwise the number of positions at which that text
/// agrees with the query.
pub open spec fn spec_app_score(query: Seq<char>, app: AppView) -> int {
    let name = lowercase(app.name);
    let aliases = lowercase(join(app.aliases, seq![' ']));
    let haystack = name + seq![' '] + aliases;
    if seq_contains(haystack, query) {
        100
    } else if seq_contains(name, query) || seq_contains(aliases, query) {
        50
    } else {
        saturate_i32(positional_matches(query, haystack) as int)
    }
}

/// Applications that score exactly `k` for the normalized query `n`.
pub open spec fn scored(n: Seq<char>, k: int) -> spec_fn(AppView) -> bool {
    |a: AppView| spec_app_score(n, a) == k
}

/// `r` lists the applications of `apps` that score above zero for `n`, best
/// first, and applications with equal scores in catalogue order.
pub open spec fn ranked(r: Seq<AppView>, apps: Seq<AppView>, n: Seq<char>) -> bool {
    &&& forall|i: int, j: int|
        0 <= i < j < r.len() ==> spec_app_score(n, #[trigger] r[i]) >= spec_app_score(
            n,
            #[trigger] r[j],
        )
    &&& forall|k: int|
        #[trigger] r.filter(scored(n, k)) == if k > 0 {
            apps.filter(scored(n, k))
        } else {
            Seq::<AppView>::empty()
        }
}

/// A first position is unique.
proof fn lemma_first_unique(s: Seq<AppView>, p: spec_fn(AppView) -> bool, i: int)
    requires
        is_first(s, p, i),
    ensures
        first_where(s, p) == Some(i),
{
    let c = choose|c: int| is_first(s, p, c);
    assert(is_first(s, p, c));
    if c < i {
        assert(!p(s[c]));
    }
    if i < c {
        assert(!p(s[i]));
    }
}

/// A filter that keeps nothing gives the empty sequence.
proof fn lemma_filter_none(s: Seq<AppView>, p: spec_fn(AppView) -> bool)
    requires
        forall|i: int| 0 <= i < s.len() ==> !p(#[trigger] s[i]),
    ensures
        s.filter(p) == Seq::<AppView>::empty(),
    decreases s.len(),
{
    reveal(Seq::filter);
    if s.len() > 0 {
        lemma_filter_none(s.drop_last(), p);
    }
}

/// Inserting an element after every element of at least its score and before
/// every element of a lower score appends it to its own score group and leaves
/// every other group alone.
proof fn lemma_insert_groups(g: Seq<AppView>, p: int, x: AppView, n: Seq<char>, k: int)
    requires
        0 <= p <= g.len(),
        forall|q: int| 0 <= q < p ==> spec_app_score(n, #[trigger] g[q]) >= spec_app_score(n, x),
        forall|q: int| p <= q < g.len() ==> spec_app_score(n, #[trigger] g[q]) < spec_app_score(n, x),
    ensures
        g.insert(p, x).filter(scored(n, k)) == if spec_app_score(n, x) == k {
            g.filter(scored(n, k)).push(x)
        } else {
            g.filter(scored(n, k))
        },
{
    let pred = scored(n, k);
    let a = g.subrange(0, p);
    let b = g.subrange(p, g.len() as int);
    assert(g =~= a + b);
    assert(g.insert(p, x) =~= a.push(x) + b);
    Seq::filter_distributes_over_add(a.push(x), b, pred);
    Seq::filter_distributes_over_add(a, b, pred);
    a.lemma_filter_push(x, pred);
    if spec_app_score(n, x) == k {
        assert forall|i: int| 0 <= i < b.len() implies !pred(#[trigger] b[i]) by {
            assert(b[i] == g[p + i]);
        }
        lemma_filter_none(b, pred);
        assert(a.filter(pred) + b.filter(pred) =~= a.filter(pred));
        assert(a.filter(pred).push(x) + b.filter(pred) =~= a.filter(pred).push(x));
    }
}

/// Inserting at that position keeps the sequence ordered by score.
proof fn lemma_insert_sorted(g: Seq<AppView>, p: int, x: AppView, n: Seq<char>)
    requires
        0 <= p <= g.len(),
        forall|q: int| 0 <= q < p ==> spec_app_score(n, #[trigger] g[q]) >= spec_app_score(n, x),
        forall|q: int| p <= q < g.len() ==> spec_app_score(n, #[trigger] g[q]) < spec_app_score(n, x),
        forall|a: int, b: int|
            0 <= a < b < g.len() ==> spec_app_score(n, #[trigger] g[a]) >= spec_app_score(
                n,
                #[trigger] g[b],
            ),
    ensures
        forall|a: int, b: int|
            0 <= a < b < g.len() + 1 ==> spec_app_score(n, #[trigger] g.insert(p, x)[a])
                >= spec_app_score(n, #[trigger] g.insert(p, x)[b]),
{
    let g2 = g.insert(p, x);
    g.insert_ensures(p, x);
    assert forall|a: int, b: int| 0 <= a < b < g2.len() implies spec_app_score(
        n,
        #[trigger] g2[a],
    ) >= spec_app_score(n, #[trigger] g2[b]) by {
        if a < p && b < p {
            assert(g2[a] == g[a] && g2[b] == g[b]);
        } else if a < p && b == p {
            assert(g2[a] == g[a]);
        } else if a < p {
            assert(g2[a] == g[a] && g2[b] == g[b - 1]);
        } else if a == p {
            assert(g2[b] == g[b - 1]);
        } else {
            assert(g2[a] == g[a - 1] && g2[b] == g[b - 1]);
        }
    }
}

/// The score of one application for an already normalized query.
fn app_score(query: &str, app: &App) -> (s: i32)
    ensures
        s as int == spec_app_score(query@, app@),
{
    proof {
        reveal_strlit(" ");
    }
    assert(" "@ =~= seq![' ']);
    let name = to_lowercase(app.name.as_str());
    let joined = join_strings(app.aliases.as_slice(), " ");
    let aliases = to_lowercase(joined.as_str());
    let mut haystack = name.clone();
    haystack.append(" ");
    haystack.append(aliases.as_str());
    let hay = chars_of(haystack.as_str());
    let name_chars = chars_of(name.as_str());
    let alias_chars = chars_of(aliases.as_str());
    let q = chars_of(query);
    if contains(hay.as_slice(), q.as_slice()) {
        100
    } else if contains(name_chars.as_slice(), q.as_slice()) || contains(
        alias_chars.as_slice(),
        q.as_slice(),
    ) {
        50
    } else {
        let count = count_positional_matches(q.as_slice(), hay.as_slice());
        if count > 0x7fff_ffffu64 {
            0x7fff_ffffi32
        } else {
            count as i32
        }
    }
}

/// Whether the application's lowercased name or one of its lowercased aliases
/// equals the normalized query.
fn matches_exactly(app: &App, normalized: &String) -> (b: bool)
    ensures
        b == exact_match(app@, normalized@),
{
    let name = to_lowercase(app.name.as_str());
    if name == *normalized {
        return true;
    }
    let mut k: usize = 0;
    while k < app.aliases.len()
        invariant
            k <= app.aliases.len(),
            lowercase(app@.name) != normalized@,
            forall|m: int| 0 <= m < k ==> lowercase(#[trigger] app@.aliases[m]) != normalized@,
        decreases app.aliases.len() - k,
    {
        let alias = to_lowercase(app.aliases[k].as_str());
        if str_eq(alias.as_str(), normalized.as_str()) {
            assert(lowercase(app@.aliases[k as int]) == normalized@);
            return true;
        }
        k = k + 1;
    }
    false
}

impl AppDatabase {
    /// The file the catalogue was read from.
    pub closed spec fn source_file(&self) -> Seq<char> {
        self.source@
    }

    /// The catalogue read from `source`, holding `apps` in file order.
    pub fn load(source: String, apps: Vec<App>) -> (res: Self)
        ensures
            res@ == app_views(apps@),
            res.source_file() == source@,
    {
        AppDatabase { apps, source }
    }

    /// Every application, in catalogue order.
    pub fn all(&self) -> (res: &[App])
        ensures
            app_views(res@) == self@,
    {
        self.apps.as_slice()
    }

    /// The application a query names: the first whose lowercased name or
    /// alias equals the trimmed, lowercased query, else the first whose text
    /// contains it. An empty query, or one nothing matches, is an
    /// `ApplicationNotFound` error naming the query (or `empty query`).
    pub fn find(&self, query: &str) -> (res: Result<App, Error>)
        ensures
            normalized(query@).len() == 0 <==> trimmed(query@).len() == 0,
            match res {
                Ok(app) => find_target(self@, query@) == Some(app@),
                Err(e) => {
                    &&& find_target(self@, query@) is None
                    &&& e matches Error::ApplicationNotFound(m) && m@ == if normalized(
                        query@,
                    ).len() == 0 {
                        "empty query"@
                    } else {
                        query@
                    }
                },
            },
    {
        let trimmed_query = trim(query);
        let normalized_query = to_lowercase(trimmed_query);
        let ghost n = normalized(query@);
        assert(normalized_query@ == n);
        if normalized_query.as_str().is_empty() {
            return Err(Error::ApplicationNotFound("empty query".to_owned()));
        }
        let ghost apps = self@;
        let ghost exact = exact_pred(n);
        let ghost loose = loose_pred(n);
        let mut i: usize = 0;
        while i < self.apps.len()
            invariant
                i <= self.apps@.len(),
                apps == app_views(self.apps@),
                apps.len() == self.apps@.len(),
                normalized_query@ == n,
                n == normalized(query@),
                n.len() > 0,
                trimmed(query@).len() > 0,
                exact == exact_pred(n),
                forall|j: int| 0 <= j < i ==> !exact(#[trigger] apps[j]),
            decreases self.apps.len() - i,
        {
            if matches_exactly(&self.apps[i], &normalized_query) {
                proof {
                    assert(apps[i as int] == self.apps@[i as int]@);
                    assert(is_first(apps, exact, i as int));
                    lemma_first_unique(apps, exact, i as int);
                }
                let found = self.apps[i].clone();
                assert(find_target(apps, query@) == Some(apps[i as int]));
                assert(found@ == apps[i as int]);
                return Ok(found);
            }
            i = i + 1;
        }
        assert(!exists|j: int| is_first(apps, exact, j));
        let mut i: usize = 0;
        while i < self.apps.len()
            invariant
                i <= self.apps@.len(),
                apps == app_views(self.apps@),
                apps.len() == self.apps@.len(),
                normalized_query@ == n,
                n == normalized(query@),
                n.len() > 0,
                trimmed(query@).len() > 0,
                first_where(apps, exact_pred(n)) is None,
                loose == loose_pred(n),
                forall|j: int| 0 <= j < i ==> !loose(#[trigger] apps[j]),
            decreases self.apps.len() - i,
        {
            if self.apps[i].contains_query(normalized_query.as_str()) {
                proof {
                    assert(apps[i as int] == self.apps@[i as int]@);
                    assert(is_first(apps, loose, i as int));
                    lemma_first_unique(apps, loose, i as int);
                }
                let found = self.apps[i].clone();
                assert(find_target(apps, query@) == Some(apps[i as int]));
                assert(found@ == apps[i as int]);
                return Ok(found);
            }
            i = i + 1;
        }
        assert(!exists|j: int| is_first(apps, loose, j));
        Err(Error::ApplicationNotFound(query.to_owned()))
    }

    /// All applications for an empty query; otherwise the applications that
    /// score above zero, best first, equal scores in catalogue order.
    pub fn search(&self, query: &str) -> (res: Vec<App>)
        ensures
            normalized(query@).len() == 0 <==> trimmed(query@).len() == 0,
            normalized(query@).len() == 0 ==> app_views(res@) == self@,
            normalized(query@).len() > 0 ==> ranked(app_views(res@), self@, normalized(query@)),
    {
        let trimmed_query = trim(query);
        let normalized_query = to_lowercase(trimmed_query);
        let ghost n = normalized(query@);
        let ghost apps = self@;
        if normalized_query.as_str().is_empty() {
            let all = self.apps.clone();
            assert(app_views(all@) =~= app_views(self.apps@)) by {
                assert forall|j: int| 0 <= j < all@.len() implies #[trigger] all@[j]@
                    == self.apps@[j]@ by {
                    assert(cloned::<App>(self.apps@[j], all@[j]));
                }
            }
            return all;
        }
        let mut entries: Vec<SearchResult> = Vec::new();
        let ghost mut g: Seq<AppView> = Seq::empty();
        for i in 0..self.apps.len()
            invariant
                apps == app_views(self.apps@),
                apps.len() == self.apps@.len(),
                normalized_query@ == n,
                g.len() == entries@.len(),
                forall|j: int|
                    0 <= j < g.len() ==> (#[trigger] entries@[j]).app@ == g[j]
                        && entries@[j].score as int == spec_app_score(n, g[j])
                        && entries@[j].score > 0,
                forall|a: int, b: int|
                    0 <= a < b < g.len() ==> spec_app_score(n, #[trigger] g[a])
                        >= spec_app_score(n, #[trigger] g[b]),
                forall|k: int|
                    k > 0 ==> #[trigger] g.filter(scored(n, k)) == apps.take(i as int).filter(
                        scored(n, k),
                    ),
        {
            let s = app_score(normalized_query.as_str(), &self.apps[i]);
            let ghost x = apps[i as int];
            assert(x == self.apps@[i as int]@);
            assert(apps.take(i + 1) =~= apps.take(i as int).push(x));
            if s > 0 {
                let mut p: usize = 0;
                while p < entries.len() && entries[p].score >= s
                    invariant
                        p <= entries@.len(),
                        g.len() == entries@.len(),
                        forall|j: int|
                            0 <= j < g.len() ==> (#[trigger] entries@[j]).app@ == g[j]
                                && entries@[j].score as int == spec_app_score(n, g[j]),
                        forall|q: int| 0 <= q < p ==> spec_app_score(n, #[trigger] g[q]) >= s,
                    decreases entries@.len() - p,
                {
                    p = p + 1;
                }
                proof {
                    assert forall|q: int| p <= q < g.len() implies spec_app_score(
                        n,
                        #[trigger] g[q],
                    ) < s by {
                        assert(entries@[p as int].score < s);
                        if q > p {
                            assert(spec_app_score(n, g[p as int]) >= spec_app_score(n, g[q]));
                        }
                    }
                    assert forall|k: int| k > 0 implies #[trigger] g.insert(p as int, x).filter(
                        scored(n, k),
                    ) == apps.take(i + 1).filter(scored(n, k)) by {
                        lemma_insert_groups(g, p as int, x, n, k);
                        apps.take(i as int).lemma_filter_push(x, scored(n, k));
                    }
                    g.insert_ensures(p as int, x);
                }
                entries.insert(p, SearchResult::new(self.apps[i].clone(), s));
                proof {
                    let g2 = g.insert(p as int, x);
                    lemma_insert_sorted(g, p as int, x, n);
                    assert forall|j: int| 0 <= j < g2.len() implies (#[trigger] entries@[j]).app@
                        == g2[j] && entries@[j].score as int == spec_app_score(n, g2[j])
                        && entries@[j].score > 0 by {
                        if j > p {
                            assert(g2[j] == g[j - 1]);
                        } else if j < p {
                            assert(g2[j] == g[j]);
                        }
                    }
                    g = g2;
                }
            } else {
                proof {
                    assert forall|k: int| k > 0 implies #[trigger] g.filter(scored(n, k))
                        == apps.take(i + 1).filter(scored(n, k)) by {
                        apps.take(i as int).lemma_filter_push(x, scored(n, k));
                    }
                }
            }
        }
        let mut res: Vec<App> = Vec::new();
        for j in 0..entries.len()
            invariant
                g.len() == entries@.len(),
                forall|m: int| 0 <= m < g.len() ==> (#[trigger] entries@[m]).app@ == g[m],
                app_views(res@) == g.take(j as int),
        {
            assert(entries@[j as int].app@ == g[j as int]);
            let c = entries[j].app.clone();
            assert(c@ == g[j as int]);
            let ghost before = res@;
            res.push(c);
            assert(res@ == before.push(c));
            assert(app_views(res@) =~= app_views(before).push(c@));
            assert(app_views(res@) =~= g.take(j + 1));
        }
        proof {
            assert(app_views(res@) =~= g);
            assert(apps.take(apps.len() as int) =~= apps);
            assert forall|k: int| #[trigger] g.filter(scored(n, k)) == if k > 0 {
                apps.filter(scored(n, k))
            } else {
                Seq::<AppView>::empty()
            } by {
                if k <= 0 {
                    assert forall|m: int| 0 <= m < g.len() implies !scored(n, k)(
                        #[trigger] g[m],
                    ) by {
                        assert(entries@[m].score > 0);
                    }
                    lemma_filter_none(g, scored(n, k));
                }
            }
        }
        res
    }
}

/// Some position satisfying `p` means a first one exists.
proof fn lemma_first_exists(s: Seq<AppView>, p: spec_fn(AppView) -> bool, i: int)
    requires
        0 <= i < s.len(),
        p(s[i]),
    ensures
        exists|f: int| is_first(s, p, f),
    decreases i,
{
    if exists|j: int| 0 <= j < i && p(s[j]) {
        let j = choose|j: int| 0 <= j < i && p(s[j]);
        lemma_first_exists(s, p, j);
    } else {
        assert(is_first(s, p, i));
    }
}

/// When some application's lowercased name or alias equals the normalized
/// query, the query selects an application that matches exactly, never one
/// that merely contains the query.
pub proof fn law_exact_match_wins(apps: Seq<AppView>, query: Seq<char>, i: int)
    requires
        normalized(query).len() > 0,
        0 <= i < apps.len(),
        exact_match(apps[i], normalized(query)),
    ensures
        find_target(apps, query) matches Some(a) && exact_match(a, normalized(query)),
{
    let n = normalized(query);
    lemma_first_exists(apps, exact_pred(n), i);
    let f = choose|f: int| is_first(apps, exact_pred(n), f);
    lemma_first_unique(apps, exact_pred(n), f);
}

/// Every application of the catalogue that scores above zero is among the
/// ranked results.
pub proof fn law_search_keeps_every_hit(r: Seq<AppView>, apps: Seq<AppView>, n: Seq<char>, i: int)
    requires
        ranked(r, apps, n),
        0 <= i < apps.len(),
        spec_app_score(n, apps[i]) > 0,
    ensures
        r.contains(apps[i]),
{
    let k = spec_app_score(n, apps[i]);
    assert(scored(n, k)(apps[i]));
    apps.lemma_filter_contains(scored(n, k), i);
    assert(r.filter(scored(n, k)) == apps.filter(scored(n, k)));
    r.lemma_filter_contains_rev(scored(n, k), apps[i]);
}

/// When the normalized query is exactly the lowercased name, or exactly one
/// lowercased alias, of some application, the query selects an application
/// whose lowercased name or one of whose lowercased aliases is exactly that
/// query: an alias counts as much as a name, and the text search never decides.
pub proof fn law_exact_name_or_alias_selects(apps: Seq<AppView>, query: Seq<char>, i: int, k: int)
    requires
        normalized(query).len() > 0,
        0 <= i < apps.len(),
        lowercase(apps[i].name) == normalized(query) || (0 <= k < apps[i].aliases.len()
            && lowercase(apps[i].aliases[k]) == normalized(query)),
    ensures
        find_target(apps, query) matches Some(a) && (lowercase(a.name) == normalized(query)
            || exists|m: int|
            0 <= m < a.aliases.len() && #[trigger] lowercase(a.aliases[m]) == normalized(
                query,
            )),
{
    let n = normalized(query);
    if lowercase(apps[i].name) != n {
        assert(lowercase(apps[i].aliases[k]) == n);
    }
    assert(exact_match(apps[i], n));
    law_exact_match_wins(apps, query, i);
}

/// An application whose lowercased name, or whose lowercased aliases joined
/// by spaces, contain the normalized query scores 100, the highest score.
pub proof fn law_name_or_alias_hit_scores_top(n: Seq<char>, a: AppView)
    requires
        seq_contains(lowercase(a.name), n) || seq_contains(
            lowercase(join(a.aliases, seq![' '])),
            n,
        ),
    ensures
        spec_app_score(n, a) == 100,
{
    let name = lowercase(a.name);
    let aliases = lowercase(join(a.aliases, seq![' ']));
    lemma_contains_concat(name, seq![' '] + aliases, n);
    lemma_contains_concat(seq![' '], aliases, n);
    assert(name + seq![' '] + aliases =~= name + (seq![' '] + aliases));
}

/// An application with a single alias whose lowercase contains the normalized
/// query scores 100.
pub proof fn law_single_alias_hit_scores_top(n: Seq<char>, a: AppView)
    requires
        a.aliases.len() == 1,
        seq_contains(lowercase(a.aliases[0]), n),
    ensures
        spec_app_score(n, a) == 100,
{
    assert(join(a.aliases, seq![' ']) == a.aliases[0]);
    law_name_or_alias_hit_scores_top(n, a);
}

/// For a query of fewer than a hundred characters and without spaces, an
/// application whose lowercased name or lowercased aliases contain the query
/// comes, among the ranked results, before every application whose lowercased
/// name and lowercased aliases do not.
pub proof fn law_hit_ranks_before_miss(
    r: Seq<AppView>,
    apps: Seq<AppView>,
    n: Seq<char>,
    i: int,
    j: int,
)
    requires
        ranked(r, apps, n),
        n.len() < 100,
        !n.contains(' '),
        0 <= i < r.len(),
        0 <= j < r.len(),
        seq_contains(lowercase(r[i].name), n) || seq_contains(
            lowercase(join(r[i].aliases, seq![' '])),
            n,
        ),
        !seq_contains(lowercase(r[j].name), n),
        !seq_contains(lowercase(join(r[j].aliases, seq![' '])), n),
    ensures
        i < j,
{
    law_name_or_alias_hit_scores_top(n, r[i]);
    let name = lowercase(r[j].name);
    let aliases = lowercase(join(r[j].aliases, seq![' ']));
    if seq_contains(name + seq![' '] + aliases, n) {
        lemma_contains_split(name, aliases, ' ', n);
    }
    lemma_positional_matches_bound(n, name + seq![' '] + aliases);
    assert(spec_app_score(n, r[j]) < 100);
    if j < i {
        assert(spec_app_score(n, r[j]) >= spec_app_score(n, r[i]));
    }
}

} // verus!
