use vstd::prelude::*;
use vstd::utf8::encode_utf8;
use crate::launcher::index::{AppEntry, AppEntryView, strings_view};
use crate::sorting::{lemma_stable_sort_ties, insert_pos, insert_stable, stable_sort, is_sorted_by, is_strict_order, lemma_insert_pos, lemma_stable_sort_sorted, lemma_stable_sort_multiset};
use crate::text::{ascii_lower, contains_seq, is_subseq, chars_of, lower_ascii, chars_eq, starts_with, contains, is_subsequence, utf8_len_capped};

verus! {

/// A scored search result.
#[derive(Clone, Debug)]
pub struct ScoredEntry {
    pub entry: AppEntry,
    pub score: i64,
}

/// The mathematical content of a [`ScoredEntry`].
pub struct ScoredView {
    pub entry: AppEntryView,
    pub score: int,
}

impl View for ScoredEntry {
    type V = ScoredView;

    open spec fn view(&self) -> ScoredView {
        ScoredView { entry: self.entry@, score: self.score as int }
    }
}

/// The views of a list of scored entries.
pub open spec fn scored_views(s: Seq<ScoredEntry>) -> Seq<ScoredView> {
    s.map_values(|e: ScoredEntry| e@)
}

/// Points a single keyword earns against the (lowercase) query.
pub open spec fn keyword_points(kw: Seq<char>, q: Seq<char>) -> int {
    let k = ascii_lower(kw);
    if k == q {
        250
    } else if q.is_prefix_of(k) {
        150
    } else if contains_seq(k, q) {
        75
    } else if is_subseq(k, q) {
        40
    } else {
        0
    }
}

/// Points all keywords earn together.
pub open spec fn keywords_points(kws: Seq<Seq<char>>, q: Seq<char>) -> int
    decreases kws.len(),
{
    if kws.len() == 0 {
        0
    } else {
        keywords_points(kws.drop_last(), q) + keyword_points(kws.last(), q)
    }
}

/// Points the generic name earns.
pub open spec fn generic_points(g: Option<Seq<char>>, q: Seq<char>) -> int {
    match g {
        Some(g) => {
            let gl = ascii_lower(g);
            if contains_seq(gl, q) {
                300
            } else if is_subseq(gl, q) {
                150
            } else {
                0
            }
        },
        None => 0,
    }
}

/// The score of an entry against a lowercase query, or `None` when it does not match.
/// An exact name scores 1000, a name prefix 900 minus the name's length in bytes,
/// a name substring 700; otherwise the sum of name-subsequence (500), generic-name
/// and keyword points, when that sum is positive.
pub open spec fn entry_score(e: AppEntryView, q: Seq<char>) -> Option<int> {
    let n = ascii_lower(e.name);
    if n == q {
        Some(1000)
    } else if q.is_prefix_of(n) {
        Some(900 - encode_utf8(e.name).len())
    } else if contains_seq(n, q) {
        Some(700)
    } else {
        let s = (if is_subseq(n, q) { 500int } else { 0int }) + generic_points(e.generic_name, q)
            + keywords_points(e.keywords, q);
        if s > 0 {
            Some(s)
        } else {
            None
        }
    }
}

/// Machine limits under which every score of the entry fits in an `i64`: a name
/// no longer than `isize::MAX` bytes and a bounded number of keywords.
pub open spec fn scorable(e: AppEntryView) -> bool {
    &&& encode_utf8(e.name).len() <= isize::MAX
    &&& e.keywords.len() <= 0x10_0000_0000_0000
}

/// Whether an entry is within the limits of [`scorable`], checked.
pub fn is_scorable(e: &AppEntry) -> (r: bool)
    ensures
        r == scorable(e@),
{
    let name_ok = utf8_len_capped(&chars_of(e.name.as_str()), isize::MAX as usize).is_some();
    let keyword_count = e.keywords.len();
    assert(strings_view(e.keywords@).len() == e.keywords@.len());
    name_ok && (keyword_count as u64) <= 0x10_0000_0000_0000u64
}

/// The apps that match, each with its score, in the order given.
pub open spec fn matching(apps: Seq<AppEntryView>, q: Seq<char>) -> Seq<ScoredView>
    decreases apps.len(),
{
    if apps.len() == 0 {
        Seq::empty()
    } else {
        let prev = matching(apps.drop_last(), q);
        match entry_score(apps.last(), q) {
            Some(s) => prev.push(ScoredView { entry: apps.last(), score: s }),
            None => prev,
        }
    }
}

/// Ranking order: a higher score comes first.
pub open spec fn ranks_before() -> spec_fn(ScoredView, ScoredView) -> bool {
    |a: ScoredView, b: ScoredView| a.score > b.score
}

/// All matching apps, best score first; ties keep the order of `apps`.
pub open spec fn ranked(apps: Seq<AppEntryView>, q: Seq<char>) -> Seq<ScoredView> {
    stable_sort(matching(apps, q), ranks_before())
}

/// The views of a list of apps.
pub open spec fn app_views(apps: Seq<AppEntry>) -> Seq<AppEntryView> {
    apps.map_values(|a: AppEntry| a@)
}

proof fn lemma_keywords_points_bounds(kws: Seq<Seq<char>>, q: Seq<char>)
    ensures
        0 <= keywords_points(kws, q) <= 250 * kws.len(),
    decreases kws.len(),
{
    if kws.len() > 0 {
        lemma_keywords_points_bounds(kws.drop_last(), q);
    }
}

/// Points of one keyword.
fn keyword_score(kw: &String, q: &[char]) -> (r: i64)
    ensures
        r == keyword_points(kw@, q@),
{
    let k = lower_ascii(&chars_of(kw.as_str()));
    if chars_eq(&k, q) {
        250
    } else if starts_with(&k, q) {
        150
    } else if contains(&k, q) {
        75
    } else if is_subsequence(&k, q) {
        40
    } else {
        0
    }
}

/// Score of an entry against an already lowercased query.
fn score_entry(entry: &AppEntry, query: &[char]) -> (r: Option<i64>)
    requires
        scorable(entry@),
    ensures
        r matches Some(v) ==> entry_score(entry@, query@) == Some(v as int),
        r is None ==> entry_score(entry@, query@) is None,
{
    let name_lower = lower_ascii(&chars_of(entry.name.as_str()));
    if chars_eq(&name_lower, query) {
        return Some(1000);
    }
    if starts_with(&name_lower, query) {
        let n = entry.name.as_str().len();
        return Some(900 - n as i64);
    }
    if contains(&name_lower, query) {
        return Some(700);
    }
    let mut score: i64 = 0;
    if is_subsequence(&name_lower, query) {
        score = score + 500;
    }
    match &entry.generic_name {
        Some(generic) => {
            let generic_lower = lower_ascii(&chars_of(generic.as_str()));
            if contains(&generic_lower, query) {
                score = score + 300;
            } else if is_subsequence(&generic_lower, query) {
                score = score + 150;
            }
        },
        None => {},
    }
    let base = score;
    assert(base == (if is_subseq(ascii_lower(entry@.name), query@) { 500int } else { 0int })
        + generic_points(entry@.generic_name, query@));
    let nk = entry.keywords.len();
    let ghost kws = entry@.keywords;
    for i in 0..nk
        invariant
            nk == entry.keywords@.len(),
            kws == entry@.keywords,
            kws.len() == nk,
            nk <= 0x10_0000_0000_0000,
            0 <= base <= 800,
            score == base + keywords_points(kws.take(i as int), query@),
    {
        proof {
            lemma_keywords_points_bounds(kws.take(i as int), query@);
            assert(kws.take(i + 1).drop_last() =~= kws.take(i as int));
            assert(kws[i as int] == entry.keywords@[i as int]@);
        }
        let p = keyword_score(&entry.keywords[i], query);
        score = score + p;
    }
    assert(kws.take(nk as int) =~= kws);
    if score > 0 {
        Some(score)
    } else {
        None
    }
}

/// Position of the first element that `x` outranks, scanning from the front.
fn rank_insert_pos(v: &Vec<ScoredEntry>, x: &ScoredEntry) -> (p: usize)
    ensures
        p as int == insert_pos(scored_views(v@), x@, ranks_before()),
        p <= v@.len(),
{
    let ghost s = scored_views(v@);
    proof {
        lemma_insert_pos(s, x@, ranks_before());
    }
    let n = v.len();
    let mut i: usize = 0;
    while i < n
        invariant
            n == v@.len(),
            s == scored_views(v@),
            i <= n,
            forall|j: int| 0 <= j < i ==> !(ranks_before())(x@, #[trigger] s[j]),
        decreases n - i,
    {
        if x.score > v[i].score {
            assert((ranks_before())(x@, s[i as int]));
            proof {
                lemma_insert_pos_unique(s, x@, i as int);
            }
            return i;
        }
        i = i + 1;
    }
    proof {
        lemma_insert_pos_unique(s, x@, n as int);
    }
    n
}

proof fn lemma_insert_pos_unique(s: Seq<ScoredView>, x: ScoredView, i: int)
    requires
        0 <= i <= s.len(),
        forall|j: int| 0 <= j < i ==> !(ranks_before())(x, #[trigger] s[j]),
        i < s.len() ==> (ranks_before())(x, s[i]),
    ensures
        insert_pos(s, x, ranks_before()) == i,
{
    lemma_insert_pos(s, x, ranks_before());
    let p = insert_pos(s, x, ranks_before());
    if p < i {
        assert(!(ranks_before())(x, s[p]));
    } else if p > i {
        assert(!(ranks_before())(x, s[i]));
    }
}

/// Search indexed apps by query and return ranked results.
///
/// The query is lowercased (ASCII), every app is scored against it, the apps
/// that match are ordered by descending score (ties keep their order in `apps`),
/// and the first `max_results` of them are returned.
pub fn search(apps: &[AppEntry], query: &str, max_results: usize) -> (r: Vec<ScoredEntry>)
    requires
        forall|i: int| 0 <= i < apps@.len() ==> scorable(#[trigger] apps@[i]@),
    ensures
        r@.len() == if max_results < matching(app_views(apps@), ascii_lower(query@)).len() {
            max_results as int
        } else {
            matching(app_views(apps@), ascii_lower(query@)).len() as int
        },
        scored_views(r@) == ranked(app_views(apps@), ascii_lower(query@)).take(r@.len() as int),
{
    let q = lower_ascii(&chars_of(query));
    let ghost views = app_views(apps@);
    let mut results: Vec<ScoredEntry> = Vec::new();
    let n = apps.len();
    for i in 0..n
        invariant
            n == apps@.len(),
            views == app_views(apps@),
            q@ == ascii_lower(query@),
            forall|k: int| 0 <= k < apps@.len() ==> scorable(#[trigger] apps@[k]@),
            scored_views(results@) == stable_sort(matching(views.take(i as int), q@), ranks_before()),
    {
        let ghost prev = matching(views.take(i as int), q@);
        proof {
            assert(views.take(i + 1).drop_last() =~= views.take(i as int));
            assert(views.take(i + 1).last() == apps@[i as int]@);
            lemma_stable_sort_multiset(prev, ranks_before());
        }
        match score_entry(&apps[i], &q) {
            Some(score) => {
                let item = ScoredEntry { entry: apps[i].duplicate(), score };
                let p = rank_insert_pos(&results, &item);
                let ghost before_insert = scored_views(results@);
                proof {
                    assert(prev.push(item@).drop_last() =~= prev);
                    assert(prev.push(item@).last() == item@);
                }
                results.insert(p, item);
                assert(scored_views(results@) =~= before_insert.insert(p as int, item@));
            },
            None => {},
        }
    }
    assert(views.take(n as int) =~= views);
    let ghost all = scored_views(results@);
    proof {
        lemma_stable_sort_multiset(matching(views, q@), ranks_before());
    }
    results.truncate(max_results);
    assert(scored_views(results@) =~= all.take(results@.len() as int));
    results
}

/// The ranking order is a strict order.
proof fn lemma_ranks_before_strict()
    ensures
        is_strict_order(ranks_before()),
{
}

/// Search results are ranked: in the ranking that `search` returns a prefix of,
/// no entry outscores one placed before it, and the ranking holds exactly the
/// matching apps with their scores.
pub proof fn lemma_results_ranked(apps: Seq<AppEntryView>, q: Seq<char>)
    ensures
        is_sorted_by(ranked(apps, q), ranks_before()),
        ranked(apps, q).to_multiset() == matching(apps, q).to_multiset(),
{
    lemma_ranks_before_strict();
    lemma_stable_sort_sorted(matching(apps, q), ranks_before());
    lemma_stable_sort_multiset(matching(apps, q), ranks_before());
}

/// An exact (case-insensitive) name match scores 1000, above every entry whose
/// name only starts with or contains the query.
pub proof fn lemma_exact_match_scores_highest(a: AppEntryView, b: AppEntryView, q: Seq<char>)
    requires
        ascii_lower(a.name) == q,
        ascii_lower(b.name) != q,
        q.is_prefix_of(ascii_lower(b.name)) || contains_seq(ascii_lower(b.name), q),
    ensures
        entry_score(a, q) == Some(1000int),
        entry_score(b, q) matches Some(v) && v < 1000,
{
}

/// Matches that tie keep the order of the applications: when every matching app
/// has the same score, the ranking is the matches in the order given.
pub proof fn lemma_ties_keep_order(apps: Seq<AppEntryView>, q: Seq<char>, score: int)
    requires
        forall|i: int| 0 <= i < matching(apps, q).len() ==> (#[trigger] matching(apps, q)[i]).score == score,
    ensures
        ranked(apps, q) == matching(apps, q),
{
    let m = matching(apps, q);
    assert forall|i: int, j: int| 0 <= i < m.len() && 0 <= j < m.len() implies !(ranks_before())(#[trigger] m[i], #[trigger] m[j]) by {
        assert(m[i].score == score && m[j].score == score);
    }
    lemma_stable_sort_ties(m, ranks_before());
}

/// A contiguous occurrence is also an occurrence as a subsequence.
proof fn lemma_contains_is_subseq(s: Seq<char>, p: Seq<char>, i: int)
    requires
        0 <= i,
        i + p.len() <= s.len(),
        s.subrange(i, i + p.len()) == p,
    ensures
        is_subseq(s, p),
    decreases s.len(),
{
    if p.len() > 0 && s.len() > 0 {
        let s1 = s.drop_first();
        assert(s[i] == s.subrange(i, i + p.len())[0]);
        if s[0] == p[0] {
            let p1 = p.drop_first();
            let j = if i == 0 { 0 } else { i };
            assert(s1.subrange(j, j + p1.len()) =~= p1) by {
                assert forall|k: int| 0 <= k < p1.len() implies s1.subrange(j, j + p1.len())[k] == p1[k] by {
                    if i == 0 {
                        assert(s.subrange(i, i + p.len())[k + 1] == s[k + 1]);
                    } else {
                        assert(s.subrange(i, i + p.len())[k + 1] == s[i + k + 1]);
                        assert(p1[k] == p[k + 1]);
                    }
                }
            }
            if i != 0 {
                assert(s.subrange(i, i + p.len())[0] == s[i]);
            }
            lemma_contains_is_subseq(s1, p1, j);
        } else {
            assert(i != 0);
            assert(s1.subrange(i - 1, i - 1 + p.len()) =~= p) by {
                assert forall|k: int| 0 <= k < p.len() implies s1.subrange(i - 1, i - 1 + p.len())[k] == p[k] by {
                    assert(s.subrange(i, i + p.len())[k] == s[i + k]);
                }
            }
            lemma_contains_is_subseq(s1, p, i - 1);
        }
    }
}

/// A name that is the query, starts with it or contains it also has it as a
/// subsequence.
proof fn lemma_name_tiers_are_subseq(n: Seq<char>, q: Seq<char>)
    ensures
        (n == q || q.is_prefix_of(n) || contains_seq(n, q)) ==> is_subseq(n, q),
{
    if n == q {
        assert(n.subrange(0, q.len() as int) =~= q);
        lemma_contains_is_subseq(n, q, 0);
    } else if q.is_prefix_of(n) {
        lemma_contains_is_subseq(n, q, 0);
    } else if contains_seq(n, q) {
        let i = choose|i: int| 0 <= i && i + q.len() <= n.len() && #[trigger] n.subrange(i, i + q.len()) == q;
        lemma_contains_is_subseq(n, q, i);
    }
}

/// A keyword that has the query as a subsequence earns at least 40 points.
proof fn lemma_keyword_subseq_points(kw: Seq<char>, q: Seq<char>)
    requires
        is_subseq(ascii_lower(kw), q),
    ensures
        keyword_points(kw, q) >= 40,
{
}

/// The keyword points are at least those of any one keyword.
proof fn lemma_keywords_points_at_least(kws: Seq<Seq<char>>, q: Seq<char>, i: int)
    requires
        0 <= i < kws.len(),
    ensures
        keywords_points(kws, q) >= keyword_points(kws[i], q),
    decreases kws.len(),
{
    lemma_keywords_points_bounds(kws.drop_last(), q);
    if i < kws.len() - 1 {
        lemma_keywords_points_at_least(kws.drop_last(), q, i);
        assert(kws.drop_last()[i] == kws[i]);
    }
}

/// Generic-name points are never negative.
proof fn lemma_generic_points_nonneg(g: Option<Seq<char>>, q: Seq<char>)
    ensures
        generic_points(g, q) >= 0,
{
}

/// An app whose (lowercased) name, generic name or a keyword has the query as a
/// subsequence is a match; its score is positive unless its name starts with
/// the query (then it is 900 less the name's length in bytes).
pub proof fn lemma_subsequence_is_a_match(e: AppEntryView, q: Seq<char>)
    requires
        is_subseq(ascii_lower(e.name), q) || (e.generic_name matches Some(g) && is_subseq(ascii_lower(g), q))
            || exists|i: int| 0 <= i < e.keywords.len() && is_subseq(ascii_lower(#[trigger] e.keywords[i]), q),
    ensures
        entry_score(e, q) is Some,
        !q.is_prefix_of(ascii_lower(e.name)) ==> entry_score(e, q)->0 > 0,
{
    let n = ascii_lower(e.name);
    lemma_keywords_points_bounds(e.keywords, q);
    lemma_generic_points_nonneg(e.generic_name, q);
    if n != q && !q.is_prefix_of(n) && !contains_seq(n, q) {
        if is_subseq(n, q) {
        } else if e.generic_name matches Some(g) && is_subseq(ascii_lower(g), q) {
            assert(generic_points(e.generic_name, q) >= 150);
        } else {
            let i = choose|i: int| 0 <= i < e.keywords.len() && is_subseq(ascii_lower(#[trigger] e.keywords[i]), q);
            lemma_keyword_subseq_points(e.keywords[i], q);
            lemma_keywords_points_at_least(e.keywords, q, i);
        }
    }
}

/// An app whose only match is that its generic name has the query as a
/// subsequence (not as a contiguous block) scores 150.
pub proof fn lemma_generic_subsequence_scores_150(e: AppEntryView, q: Seq<char>)
    requires
        !is_subseq(ascii_lower(e.name), q),
        e.keywords.len() == 0,
        e.generic_name matches Some(g) && is_subseq(ascii_lower(g), q) && !contains_seq(ascii_lower(g), q),
    ensures
        entry_score(e, q) == Some(150int),
{
    lemma_name_tiers_are_subseq(ascii_lower(e.name), q);
}

/// Every app with a score is among the ranked matches, with that score.
pub proof fn lemma_scored_apps_are_ranked(apps: Seq<AppEntryView>, q: Seq<char>, i: int)
    requires
        0 <= i < apps.len(),
        entry_score(apps[i], q) is Some,
    ensures
        ranked(apps, q).contains(ScoredView { entry: apps[i], score: entry_score(apps[i], q)->0 }),
{
    broadcast use vstd::seq_lib::group_to_multiset_ensures;
    let v = ScoredView { entry: apps[i], score: entry_score(apps[i], q)->0 };
    lemma_matching_contains(apps, q, i);
    lemma_results_ranked(apps, q);
    assert(matching(apps, q).to_multiset().count(v) > 0);
    assert(ranked(apps, q).to_multiset().count(v) > 0);
}

/// Matching keeps every app that scores.
proof fn lemma_matching_contains(apps: Seq<AppEntryView>, q: Seq<char>, i: int)
    requires
        0 <= i < apps.len(),
        entry_score(apps[i], q) is Some,
    ensures
        matching(apps, q).contains(ScoredView { entry: apps[i], score: entry_score(apps[i], q)->0 }),
    decreases apps.len(),
{
    let v = ScoredView { entry: apps[i], score: entry_score(apps[i], q)->0 };
    let prev = matching(apps.drop_last(), q);
    if i == apps.len() - 1 {
        assert(matching(apps, q) == prev.push(v));
        assert(prev.push(v)[prev.len() as int] == v);
    } else {
        assert(apps.drop_last()[i] == apps[i]);
        lemma_matching_contains(apps.drop_last(), q, i);
        let k = choose|k: int| 0 <= k < prev.len() && prev[k] == v;
        match entry_score(apps.last(), q) {
            Some(s) => {
                assert(matching(apps, q)[k] == v);
            },
            None => {},
        }
    }
}

/// Searching apps for a query found only as a subsequence of one app's generic
/// name ranks that app with score 150.
pub proof fn lemma_generic_subsequence_found(apps: Seq<AppEntryView>, q: Seq<char>, i: int)
    requires
        0 <= i < apps.len(),
        !is_subseq(ascii_lower(apps[i].name), q),
        apps[i].keywords.len() == 0,
        apps[i].generic_name matches Some(g) && is_subseq(ascii_lower(g), q) && !contains_seq(ascii_lower(g), q),
    ensures
        ranked(apps, q).contains(ScoredView { entry: apps[i], score: 150 }),
{
    lemma_generic_subsequence_scores_150(apps[i], q);
    lemma_scored_apps_are_ranked(apps, q, i);
}

} // verus!
