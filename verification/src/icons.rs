//! The icon catalogue: where it is cached, how file names become display
//! names, how the sources' listings become entries, how they are merged, and
//! how a search ranks them.

use vstd::prelude::*;
use crate::error::{is_internal, AppError};
use crate::paths::{join_path, join_relative, path_file_stem, path_parent, spec_file_stem, spec_path_parent};
use crate::sorting::{is_stable_sort, lemma_group_at_most_one, lemma_group_two, lemma_filter_member, lemma_group_member, lemma_stable_insert,
    lemma_stable_sort_empty, lemma_stable_sort_unique, with_key};
use crate::text::{chars_equal, chars_le, chars_le_exec, chars_of, char_to_uppercase, concat_str, contains_chars,
    contains_seq, ends_with, ends_with_chars, join, join_chars, lemma_chars_le_antisym, lemma_chars_le_refl,
    lemma_chars_le_total_order, lemma_chars_le_trans, lemma_split_on_nonempty,
    spec_char_uppercase, spec_lowercase, split_chars, split_on, split_whitespace, starts_with, starts_with_chars,
    string_of, texts, to_lowercase, trim, trim_chars, words};
use vstd::relations::total_ordering;

verus! {

/// A single icon: display name, image URL and source identifier.
#[derive(Debug, Clone, PartialEq, Eq)]
pub struct IconEntry {
    /// Display name (e.g. "Plex").
    pub n: String,
    /// Full CDN URL of the image.
    pub u: String,
    /// Source identifier (e.g. "dashboard-icons").
    pub s: String,
}

/// Where the icon catalogue is cached, and how long a cached copy stays fresh.
#[derive(Debug, Clone, PartialEq, Eq)]
pub struct IconCache {
    pub cache_path: String,
    pub refresh_interval_secs: u64,
}

/// A cached catalogue older than this (seven days) is refreshed.
pub const ICON_CACHE_MAX_AGE_SECS: u64 = 604800;

/// The catalogue file for a configuration file whose parent directory is
/// `parent`: `icons.json` in a `cache` directory beside the configuration.
pub open spec fn icon_cache_path_of_parent(parent: Option<Seq<char>>) -> Seq<char> {
    let dir = match parent {
        Some(p) => join_path(p, "cache"@),
        None => "./cache"@,
    };
    join_path(dir, "icons.json"@)
}

/// The directory holding a file: its parent, or `.` when it has none.
pub open spec fn dir_of_parent(parent: Option<Seq<char>>) -> Seq<char> {
    match parent {
        Some(p) => p,
        None => "."@,
    }
}

impl IconCache {
    /// The cache for a configuration file whose parent directory is `parent`.
    pub fn for_parent(parent: Option<&str>) -> (c: Self)
        ensures
            c.cache_path@ == icon_cache_path_of_parent(match parent { Some(p) => Some(p@), None => None }),
            c.refresh_interval_secs == ICON_CACHE_MAX_AGE_SECS,
    {
        let dir = match parent {
            Some(p) => join_relative(p, "cache"),
            None => String::from_str("./cache"),
        };
        IconCache { cache_path: join_relative(dir.as_str(), "icons.json"), refresh_interval_secs: ICON_CACHE_MAX_AGE_SECS }
    }

    /// The cache for a configuration file: `icons.json` in a `cache`
    /// directory beside it.
    pub fn new(config_path: &str) -> (c: Self)
        ensures
            c.cache_path@ == icon_cache_path_of_parent(spec_path_parent(config_path@)),
            c.refresh_interval_secs == ICON_CACHE_MAX_AGE_SECS,
    {
        match path_parent(config_path) {
            Some(p) => Self::for_parent(Some(p.as_str())),
            None => Self::for_parent(None),
        }
    }

    /// The directory holding the catalogue file.
    pub fn cache_dir(&self) -> (dir: String)
        ensures
            dir@ == dir_of_parent(spec_path_parent(self.cache_path@)),
    {
        match path_parent(self.cache_path.as_str()) {
            Some(p) => p,
            None => String::from_str("."),
        }
    }

    /// Whether a catalogue file of the given age (`None`: missing, or its
    /// age unknown) is fresh: younger than the refresh interval.
    pub fn is_fresh_age(&self, age_secs: Option<u64>) -> (fresh: bool)
        ensures
            fresh == (age_secs matches Some(a) && a < self.refresh_interval_secs),
    {
        match age_secs {
            Some(a) => a < self.refresh_interval_secs,
            None => false,
        }
    }
}

// ---------------------------------------------------------------------------
// Search ranking
// ---------------------------------------------------------------------------

/// How well a candidate name matches a query (lower is better): 0 for an
/// exact match, 1 for a prefix match, 2 otherwise.
pub open spec fn spec_match_score(candidate: Seq<char>, query: Seq<char>) -> u8 {
    if candidate == query {
        0
    } else if starts_with(candidate, query) {
        1
    } else {
        2
    }
}

/// Score a candidate name against a query.  Lower is better.
pub fn match_score(candidate: &str, query: &str) -> (score: u8)
    ensures
        score == spec_match_score(candidate@, query@),
{
    let c = chars_of(candidate);
    let q = chars_of(query);
    score_chars(c.as_slice(), q.as_slice())
}

fn score_chars(c: &[char], q: &[char]) -> (score: u8)
    ensures
        score == spec_match_score(c@, q@),
{
    if chars_equal(c, q) {
        0
    } else if starts_with_chars(c, q) {
        1
    } else {
        2
    }
}

/// The query a search matches names against: trimmed, in lower case.
pub open spec fn spec_search_query(query: Seq<char>) -> Seq<char> {
    spec_lowercase(trim(query))
}

/// An entry's name in lower case.
pub open spec fn lower_name(e: IconEntry) -> Seq<char> {
    spec_lowercase(e.n@)
}

/// An entry paired with its name in lower case.
pub open spec fn keyed(e: IconEntry) -> (IconEntry, Seq<char>) {
    (e, lower_name(e))
}

/// Entries paired with their names in lower case.
pub open spec fn keyed_all(entries: Seq<IconEntry>) -> Seq<(IconEntry, Seq<char>)> {
    entries.map_values(|e: IconEntry| keyed(e))
}

/// The plain value of entries paired with names.
pub open spec fn keyed_view(v: Seq<(IconEntry, String)>) -> Seq<(IconEntry, Seq<char>)> {
    v.map_values(|p: (IconEntry, String)| (p.0, p.1@))
}

/// The entries of entries paired with names.
pub open spec fn entries_of(ps: Seq<(IconEntry, Seq<char>)>) -> Seq<IconEntry> {
    ps.map_values(|p: (IconEntry, Seq<char>)| p.0)
}

/// The first `limit` elements of `s`, or all of them when there are fewer.
pub open spec fn cut<T>(s: Seq<T>, limit: nat) -> Seq<T> {
    if limit < s.len() {
        s.take(limit as int)
    } else {
        s
    }
}

/// Whether an entry's lower-case name contains the (lower-case) query.
pub open spec fn name_matches(e: IconEntry, q: Seq<char>) -> bool {
    contains_seq(lower_name(e), q)
}

/// Whether the name paired with an entry contains the query.
pub open spec fn key_matches(p: (IconEntry, Seq<char>), q: Seq<char>) -> bool {
    contains_seq(p.1, q)
}

/// The paired entries whose names contain the query, in their order.
pub open spec fn matching(ps: Seq<(IconEntry, Seq<char>)>, q: Seq<char>) -> Seq<(IconEntry, Seq<char>)> {
    ps.filter(|p: (IconEntry, Seq<char>)| key_matches(p, q))
}

/// What a search ranks a paired entry by: the match score of its name, then
/// the name.
pub open spec fn rank_key(q: Seq<char>) -> spec_fn((IconEntry, Seq<char>)) -> (u8, Seq<char>) {
    |p: (IconEntry, Seq<char>)| (spec_match_score(p.1, q), p.1)
}

/// What a search ranks an entry by: the match score of its lower-case name,
/// then that name.
pub open spec fn entry_rank(e: IconEntry, q: Seq<char>) -> (u8, Seq<char>) {
    (spec_match_score(lower_name(e), q), lower_name(e))
}

/// The ranking order: by score, and on equal scores by name.
pub open spec fn rank_le() -> spec_fn((u8, Seq<char>), (u8, Seq<char>)) -> bool {
    |a: (u8, Seq<char>), b: (u8, Seq<char>)| a.0 < b.0 || (a.0 == b.0 && chars_le(a.1, b.1))
}

/// The ranking order is a total order.
pub proof fn lemma_rank_le_total()
    ensures
        total_ordering(rank_le()),
{
    lemma_chars_le_total_order();
    let cl = |a: Seq<char>, b: Seq<char>| chars_le(a, b);
    let r = rank_le();
    assert forall|x: (u8, Seq<char>)| #[trigger] r(x, x) by {
        assert(cl(x.1, x.1));
    }
    assert forall|x: (u8, Seq<char>), y: (u8, Seq<char>)| #[trigger] r(x, y) && #[trigger] r(y, x) implies x == y by {
        assert(cl(x.1, y.1) && cl(y.1, x.1));
    }
    assert forall|x: (u8, Seq<char>), y: (u8, Seq<char>), z: (u8, Seq<char>)| #[trigger] r(x, y) && #[trigger] r(y, z) implies r(x, z) by {
        if x.0 == y.0 && y.0 == z.0 {
            assert(cl(x.1, y.1) && cl(y.1, z.1));
            assert(cl(x.1, z.1));
        }
    }
    assert forall|x: (u8, Seq<char>), y: (u8, Seq<char>)| #[trigger] r(x, y) || #[trigger] r(y, x) by {
        assert(cl(x.1, y.1) || cl(y.1, x.1));
    }
}

/// `ranked` orders the paired entries whose names contain `q`: exact matches
/// first, then prefix matches, then the rest, each group by name, pairs that
/// tie keeping their order.
pub open spec fn ranks(ranked: Seq<(IconEntry, Seq<char>)>, ps: Seq<(IconEntry, Seq<char>)>, q: Seq<char>) -> bool {
    is_stable_sort(ranked, matching(ps, q), rank_key(q), rank_le())
}

/// `r` is the answer to query `q` among the paired entries `ps`, with at most
/// `limit` results: the first `limit` entries of their ranking.
pub open spec fn is_ranking(r: Seq<IconEntry>, ps: Seq<(IconEntry, Seq<char>)>, q: Seq<char>, limit: nat) -> bool {
    exists|ranked: Seq<(IconEntry, Seq<char>)>| #[trigger] ranks(ranked, ps, q) && r == cut(entries_of(ranked), limit)
}

/// `r` answers a search for `query` among `entries` with at most `limit`
/// results: nothing for a blank query; otherwise the entries whose
/// lower-case names contain the trimmed lower-case query, ranked exact match
/// first, then prefix matches, then the rest, each group by lower-case name,
/// entries that tie keeping their order, cut to the first `limit`.
pub open spec fn is_search_result(r: Seq<IconEntry>, entries: Seq<IconEntry>, query: Seq<char>, limit: nat) -> bool {
    let q = spec_search_query(query);
    if q.len() == 0 {
        r.len() == 0
    } else {
        is_ranking(r, keyed_all(entries), q, limit)
    }
}

/// A ranking has one answer: two rankings of the same paired entries for the
/// same query and limit are equal.
pub proof fn lemma_ranking_unique(r1: Seq<IconEntry>, r2: Seq<IconEntry>, ps: Seq<(IconEntry, Seq<char>)>, q: Seq<char>, limit: nat)
    requires
        is_ranking(r1, ps, q, limit),
        is_ranking(r2, ps, q, limit),
    ensures
        r1 == r2,
{
    let s1 = choose|ranked: Seq<(IconEntry, Seq<char>)>| #[trigger] ranks(ranked, ps, q) && r1 == cut(entries_of(ranked), limit);
    let s2 = choose|ranked: Seq<(IconEntry, Seq<char>)>| #[trigger] ranks(ranked, ps, q) && r2 == cut(entries_of(ranked), limit);
    lemma_rank_le_total();
    lemma_stable_sort_unique(s1, s2, matching(ps, q), rank_key(q), rank_le());
}

/// A search has one answer: two results for the same catalogue, query and
/// limit are equal.
pub proof fn lemma_search_result_unique(r1: Seq<IconEntry>, r2: Seq<IconEntry>, entries: Seq<IconEntry>, query: Seq<char>, limit: nat)
    requires
        is_search_result(r1, entries, query, limit),
        is_search_result(r2, entries, query, limit),
    ensures
        r1 == r2,
{
    let q = spec_search_query(query);
    if q.len() == 0 {
        assert(r1 =~= r2);
    } else {
        lemma_ranking_unique(r1, r2, keyed_all(entries), q, limit);
    }
}

/// A pair found in `keyed_all(entries)` holds an entry of `entries` with its
/// lower-case name.
proof fn lemma_keyed_member(entries: Seq<IconEntry>, p: (IconEntry, Seq<char>))
    requires
        keyed_all(entries).contains(p),
    ensures
        p.1 == lower_name(p.0),
        entries.contains(p.0),
{
    let i = choose|i: int| 0 <= i < keyed_all(entries).len() && keyed_all(entries)[i] == p;
    assert(entries[i] == p.0);
}

/// Every search result matches the query, there are at most `limit` of
/// them, and they come in ranking order.
pub proof fn lemma_search_result_ranked(r: Seq<IconEntry>, entries: Seq<IconEntry>, query: Seq<char>, limit: nat)
    requires
        is_search_result(r, entries, query, limit),
    ensures
        r.len() <= limit,
        forall|i: int| 0 <= i < r.len() ==> entries.contains(#[trigger] r[i]),
        forall|i: int| 0 <= i < r.len() ==> name_matches(#[trigger] r[i], spec_search_query(query)),
        forall|i: int, j: int| 0 <= i < j < r.len() ==> (rank_le())(
            entry_rank(#[trigger] r[i], spec_search_query(query)),
            entry_rank(#[trigger] r[j], spec_search_query(query)),
        ),
{
    let q = spec_search_query(query);
    if q.len() > 0 {
        let ps = keyed_all(entries);
        let s = choose|ranked: Seq<(IconEntry, Seq<char>)>| #[trigger] ranks(ranked, ps, q) && r == cut(entries_of(ranked), limit);
        let pred = |p: (IconEntry, Seq<char>)| key_matches(p, q);
        assert forall|i: int| 0 <= i < r.len() implies entries.contains(#[trigger] r[i]) && s[i].1 == lower_name(r[i])
            && name_matches(r[i], q) by {
            let k = rank_key(q)(s[i]);
            assert(r[i] == s[i].0);
            assert(s.contains(s[i]));
            lemma_group_member(s, rank_key(q), s[i]);
            assert(with_key(s, rank_key(q), k) == with_key(matching(ps, q), rank_key(q), k));
            lemma_group_member(matching(ps, q), rank_key(q), s[i]);
            lemma_filter_member(ps, pred, s[i]);
            lemma_keyed_member(entries, s[i]);
        }
        assert forall|i: int, j: int| 0 <= i < j < r.len() implies (rank_le())(
            entry_rank(#[trigger] r[i], q),
            entry_rank(#[trigger] r[j], q),
        ) by {
            assert(r[i] == s[i].0 && r[j] == s[j].0);
            assert(s[i].1 == lower_name(r[i]));
            assert(s[j].1 == lower_name(r[j]));
            assert((rank_le())(rank_key(q)(s[i]), rank_key(q)(s[j])));
        }
    }
}

/// The trimmed, lower-case form of a search query.
pub fn search_query(query: &str) -> (q: String)
    ensures
        q@ == spec_search_query(query@),
{
    let c = chars_of(query);
    let t = trim_chars(c.as_slice());
    let s = string_of(t.as_slice());
    to_lowercase(s.as_str())
}

fn rank_le_exec(a_score: u8, a_name: &Vec<char>, b_score: u8, b_name: &Vec<char>) -> (r: bool)
    ensures
        r == (rank_le())((a_score, a_name@), (b_score, b_name@)),
{
    a_score < b_score || (a_score == b_score && chars_le_exec(a_name.as_slice(), b_name.as_slice()))
}

/// The entries of paired entries, in their order.
fn unpair(ps: Vec<(IconEntry, String)>) -> (v: Vec<IconEntry>)
    ensures
        v@ == entries_of(keyed_view(ps@)),
{
    let ghost input = ps@;
    let mut v: Vec<IconEntry> = Vec::new();
    for p in it: ps.into_iter()
        invariant
            it.seq() == input,
            v@ == entries_of(keyed_view(input.take(it.index() as int))),
    {
        let ghost i = it.index();
        proof {
            assert(input.take(i + 1) =~= input.take(i as int).push(p));
            assert(entries_of(keyed_view(input.take(i + 1))) =~= entries_of(keyed_view(input.take(i as int))).push(p.0));
        }
        v.push(p.0);
    }
    proof {
        assert(input.take(input.len() as int) =~= input);
    }
    v
}

/// Rank entries, each paired with its name in lower case, for the query `q`:
/// those whose names contain `q`, best matches first (see [`ranks`]), at
/// most `limit`.
pub fn rank_entries(ps: Vec<(IconEntry, String)>, q: &str, limit: usize) -> (found: Vec<IconEntry>)
    ensures
        is_ranking(found@, keyed_view(ps@), q@, limit as nat),
{
    let qc = chars_of(q);
    let ghost gq = q@;
    let ghost raw = ps@;
    let ghost input = keyed_view(ps@);
    let ghost pred = |p: (IconEntry, Seq<char>)| key_matches(p, gq);
    let mut out: Vec<(IconEntry, String)> = Vec::new();
    let mut scores: Vec<u8> = Vec::new();
    let mut names: Vec<Vec<char>> = Vec::new();
    proof {
        lemma_stable_sort_empty::<(IconEntry, Seq<char>), (u8, Seq<char>)>(rank_key(gq), rank_le());
        lemma_rank_le_total();
        reveal(Seq::filter);
        assert(input.take(0) =~= Seq::<(IconEntry, Seq<char>)>::empty());
        assert(input.take(0).filter(pred) =~= Seq::<(IconEntry, Seq<char>)>::empty());
        assert(keyed_view(out@) =~= Seq::<(IconEntry, Seq<char>)>::empty());
    }
    for x in it: ps.into_iter()
        invariant
            it.seq() == raw,
            input == keyed_view(raw),
            qc@ == gq,
            pred == (|p: (IconEntry, Seq<char>)| key_matches(p, gq)),
            total_ordering(rank_le()),
            is_stable_sort(keyed_view(out@), input.take(it.index() as int).filter(pred), rank_key(gq), rank_le()),
            scores@.len() == out@.len(),
            names@.len() == out@.len(),
            forall|m: int| 0 <= m < out@.len() ==> scores@[m] == spec_match_score(#[trigger] out@[m].1@, gq)
                && names@[m]@ == out@[m].1@,
    {
        let ghost i = it.index();
        let ghost px = (x.0, x.1@);
        let name = chars_of(x.1.as_str());
        proof {
            assert(input[i as int] == px);
            assert(input.take(i + 1) =~= input.take(i as int).push(px));
            input.take(i as int).lemma_filter_push(px, pred);
        }
        if contains_chars(name.as_slice(), qc.as_slice()) {
            let score = score_chars(name.as_slice(), qc.as_slice());
            let ghost kx = rank_key(gq)(px);
            assert(kx == (score, name@));
            let ghost ov = keyed_view(out@);
            let mut j: usize = 0;
            while j < out.len() && rank_le_exec(scores[j], &names[j], score, &name)
                invariant
                    j <= out@.len(),
                    ov == keyed_view(out@),
                    scores@.len() == out@.len(),
                    names@.len() == out@.len(),
                    forall|m: int| 0 <= m < out@.len() ==> scores@[m] == spec_match_score(#[trigger] out@[m].1@, gq)
                        && names@[m]@ == out@[m].1@,
                    kx == (score, name@),
                    forall|m: int| 0 <= m < j ==> (rank_le())(#[trigger] rank_key(gq)(ov[m]), kx),
                decreases out@.len() - j,
            {
                assert(rank_key(gq)(ov[j as int]) == (scores@[j as int], names@[j as int]@));
                j = j + 1;
            }
            proof {
                let key = rank_key(gq);
                let le = rank_le();
                if j < out@.len() {
                    assert(key(ov[j as int]) == (scores@[j as int], names@[j as int]@));
                }
                assert forall|m: int| j <= m < ov.len() implies !le(#[trigger] key(ov[m]), key(px)) by {
                    assert(!le(key(ov[j as int]), kx));
                    if m > j {
                        assert(le(key(ov[j as int]), key(ov[m])));
                        if le(key(ov[m]), kx) {
                            assert(le(key(ov[j as int]), kx));
                        }
                    }
                }
                lemma_stable_insert(ov, input.take(i as int).filter(pred), px, j as int, key, le);
            }
            let ghost o = out@;
            let ghost sc = scores@;
            let ghost nm = names@;
            out.insert(j, x);
            scores.insert(j, score);
            names.insert(j, name);
            proof {
                assert(keyed_view(out@) =~= ov.insert(j as int, px));
                assert forall|m: int| 0 <= m < out@.len() implies scores@[m] == spec_match_score(#[trigger] out@[m].1@, gq)
                    && names@[m]@ == out@[m].1@ by {
                    if m < j {
                        assert(out@[m] == o[m] && scores@[m] == sc[m] && names@[m] == nm[m]);
                    } else if m > j {
                        assert(out@[m] == o[m - 1] && scores@[m] == sc[m - 1] && names@[m] == nm[m - 1]);
                    }
                }
            }
        }
    }
    proof {
        assert(input.take(input.len() as int) =~= input);
    }
    let ghost ranked = keyed_view(out@);
    let mut found = unpair(out);
    if limit < found.len() {
        found.truncate(limit);
    }
    proof {
        assert(ranks(ranked, input, gq));
    }
    found
}

/// Search a catalogue: the entries whose names contain the query, ignoring
/// case and surrounding white space, best matches first, at most `limit`.
pub fn search_entries(entries: Vec<IconEntry>, query: &str, limit: usize) -> (found: Vec<IconEntry>)
    ensures
        is_search_result(found@, entries@, query@, limit as nat),
{
    let q = search_query(query);
    if q.as_str().is_empty() {
        return Vec::new();
    }
    let ghost input = entries@;
    let mut ps: Vec<(IconEntry, String)> = Vec::new();
    for e in it: entries.into_iter()
        invariant
            it.seq() == input,
            keyed_view(ps@) == keyed_all(input.take(it.index() as int)),
    {
        let ghost i = it.index();
        let lower = to_lowercase(e.n.as_str());
        proof {
            assert(input.take(i + 1) =~= input.take(i as int).push(e));
            assert(keyed_all(input.take(i + 1)) =~= keyed_all(input.take(i as int)).push(keyed(e)));
            assert(keyed_view(ps@.push((e, lower))) =~= keyed_view(ps@).push((e, lower@)));
        }
        ps.push((e, lower));
    }
    proof {
        assert(input.take(input.len() as int) =~= input);
    }
    rank_entries(ps, q.as_str(), limit)
}

// ---------------------------------------------------------------------------
// Display names
// ---------------------------------------------------------------------------

/// `s` with hyphens and underscores turned into spaces.
pub open spec fn separators_to_spaces(s: Seq<char>) -> Seq<char> {
    s.map_values(|c: char| if c == '-' || c == '_' { ' ' } else { c })
}

/// A word with its first character in upper case and the rest in lower case.
pub open spec fn capitalize(w: Seq<char>) -> Seq<char> {
    if w.len() == 0 {
        w
    } else {
        spec_char_uppercase(w[0]) + spec_lowercase(w.drop_first())
    }
}

/// The display name for a file path: the file name after the last `/`, up to
/// its first `.`, with `-` and `_` read as spaces, each word capitalized, the
/// words separated by single spaces.
pub open spec fn spec_humanize(path: Seq<char>) -> Seq<char> {
    let file_name = split_on(path, '/').last();
    let stem = split_on(file_name, '.')[0];
    join(words(separators_to_spaces(stem)).map_values(|w: Seq<char>| capitalize(w)), " "@)
}

fn capitalize_word(w: &Vec<char>) -> (r: Vec<char>)
    requires
        w@.len() > 0,
    ensures
        r@ == capitalize(w@),
{
    let first = char_to_uppercase(w[0]);
    let mut rest: Vec<char> = Vec::new();
    let mut i: usize = 1;
    while i < w.len()
        invariant
            1 <= i <= w@.len(),
            rest@ == w@.subrange(1, i as int),
        decreases w@.len() - i,
    {
        rest.push(w[i]);
        assert(w@.subrange(1, i + 1) =~= w@.subrange(1, i as int).push(w@[i as int]));
        i = i + 1;
    }
    assert(rest@ =~= w@.drop_first());
    let rest_text = string_of(rest.as_slice());
    let lower = to_lowercase(rest_text.as_str());
    let whole = concat_str(first.as_str(), lower.as_str());
    chars_of(whole.as_str())
}

/// Convert a file path to a human-readable display name, e.g.
/// `icons/home-assistant.svg` becomes `Home Assistant`.
pub fn humanize_path(path: &str) -> (name: String)
    ensures
        name@ == spec_humanize(path@),
{
    let chars = chars_of(path);
    proof {
        lemma_split_on_nonempty(path@, '/');
    }
    let parts = split_chars(chars.as_slice(), '/');
    let file_name = &parts[parts.len() - 1];
    proof {
        lemma_split_on_nonempty(file_name@, '.');
    }
    let pieces = split_chars(file_name.as_slice(), '.');
    let stem = &pieces[0];
    let mut spaced: Vec<char> = Vec::new();
    let mut i: usize = 0;
    while i < stem.len()
        invariant
            i <= stem@.len(),
            spaced@ == separators_to_spaces(stem@.take(i as int)),
        decreases stem@.len() - i,
    {
        let c = stem[i];
        spaced.push(if c == '-' || c == '_' { ' ' } else { c });
        assert(separators_to_spaces(stem@.take(i + 1)) =~= separators_to_spaces(stem@.take(i as int)).push(
            if c == '-' || c == '_' { ' ' } else { c },
        ));
        i = i + 1;
    }
    assert(stem@.take(stem@.len() as int) =~= stem@);
    let ws = split_whitespace(spaced.as_slice());
    let ghost wv = words(spaced@);
    proof {
        crate::text::lemma_words_shape(spaced@);
    }
    let mut caps: Vec<Vec<char>> = Vec::new();
    let mut k: usize = 0;
    while k < ws.len()
        invariant
            k <= ws@.len(),
            ws@.len() == wv.len(),
            forall|m: int| 0 <= m < ws@.len() ==> #[trigger] ws@[m]@ == wv[m],
            forall|m: int| 0 <= m < wv.len() ==> (#[trigger] wv[m]).len() > 0,
            caps@.len() == k,
            forall|m: int| 0 <= m < k ==> #[trigger] caps@[m]@ == capitalize(wv[m]),
        decreases ws@.len() - k,
    {
        let c = capitalize_word(&ws[k]);
        caps.push(c);
        k = k + 1;
    }
    let space = chars_of(" ");
    let joined = join_chars(&caps, space.as_slice());
    assert(caps@.map_values(|w: Vec<char>| w@) =~= wv.map_values(|w: Seq<char>| capitalize(w)));
    string_of(joined.as_slice())
}

// ---------------------------------------------------------------------------
// Icon sources
// ---------------------------------------------------------------------------

/// The repositories the catalogue is built from, in priority order.
#[derive(Debug, Clone, Copy, PartialEq, Eq)]
pub enum IconSource {
    DashboardIcons,
    Selfhst,
    SimpleIcons,
    Papirus,
    HomelabSvg,
}

/// The sources in priority order: on a name clash the earlier source wins.
pub fn icon_sources() -> (v: Vec<IconSource>)
    ensures
        v@ == seq![IconSource::DashboardIcons, IconSource::Selfhst, IconSource::SimpleIcons,
            IconSource::Papirus, IconSource::HomelabSvg],
{
    let v = vec![IconSource::DashboardIcons, IconSource::Selfhst, IconSource::SimpleIcons,
        IconSource::Papirus, IconSource::HomelabSvg];
    assert(v@ =~= seq![IconSource::DashboardIcons, IconSource::Selfhst, IconSource::SimpleIcons,
        IconSource::Papirus, IconSource::HomelabSvg]);
    v
}

/// Which listed files of a source are icons.
pub open spec fn source_accepts(src: IconSource, path: Seq<char>) -> bool {
    match src {
        IconSource::DashboardIcons => starts_with(path, "svg/"@) && ends_with(path, ".svg"@),
        IconSource::Selfhst => ends_with(path, ".svg"@),
        IconSource::SimpleIcons => starts_with(path, "icons/"@) && ends_with(path, ".svg"@),
        IconSource::Papirus => ends_with(path, ".svg"@),
        IconSource::HomelabSvg => starts_with(path, "assets/"@) && ends_with(path, ".svg"@),
    }
}

/// The identifier a source's entries carry.
pub open spec fn source_id(src: IconSource) -> Seq<char> {
    match src {
        IconSource::DashboardIcons => "dashboard-icons"@,
        IconSource::Selfhst => "selfh.st"@,
        IconSource::SimpleIcons => "simple-icons"@,
        IconSource::Papirus => "papirus"@,
        IconSource::HomelabSvg => "homelab-svg"@,
    }
}

/// The identifier a source's entries carry.
pub fn source_name(src: IconSource) -> (name: &'static str)
    ensures
        name@ == source_id(src),
{
    match src {
        IconSource::DashboardIcons => "dashboard-icons",
        IconSource::Selfhst => "selfh.st",
        IconSource::SimpleIcons => "simple-icons",
        IconSource::Papirus => "papirus",
        IconSource::HomelabSvg => "homelab-svg",
    }
}

/// The CDN prefix a source's file paths are appended to.
pub open spec fn source_cdn(src: IconSource) -> Seq<char> {
    match src {
        IconSource::DashboardIcons => "https://cdn.jsdelivr.net/gh/homarr-labs/dashboard-icons/"@,
        IconSource::Selfhst => "https://cdn.jsdelivr.net/gh/selfhst/icons/"@,
        IconSource::SimpleIcons => "https://cdn.simpleicons.org/"@,
        IconSource::Papirus => "https://cdn.jsdelivr.net/gh/PapirusDevelopmentTeam/papirus_icons/"@,
        IconSource::HomelabSvg => "https://cdn.jsdelivr.net/gh/loganmarchione/homelab-svg-assets/"@,
    }
}

/// The stem of a Simple Icons file, or `unknown` when it has none.
pub open spec fn stem_or_unknown(path: Seq<char>) -> Seq<char> {
    match spec_file_stem(path) {
        Some(s) => s,
        None => "unknown"@,
    }
}

/// The entry a source makes of one of its icon files.  Simple Icons names are
/// file stems (already capitalized) and its URLs use the stem; the other
/// sources humanize the path and append it to their CDN prefix.
pub open spec fn source_entry(src: IconSource, path: Seq<char>, e: IconEntry) -> bool {
    &&& e.s@ == source_id(src)
    &&& match src {
        IconSource::SimpleIcons => e.n@ == stem_or_unknown(path) && e.u@ == source_cdn(src) + stem_or_unknown(path),
        _ => e.n@ == spec_humanize(path) && e.u@ == source_cdn(src) + path,
    }
}


/// The package a source is listed under on jsDelivr (the Dashboard Icons
/// listing comes from GitHub instead).
pub open spec fn source_package(src: IconSource) -> Seq<char> {
    match src {
        IconSource::DashboardIcons => "homarr-labs/dashboard-icons"@,
        IconSource::Selfhst => "gh/selfhst/icons@master"@,
        IconSource::SimpleIcons => "gh/simple-icons/simple-icons@master"@,
        IconSource::Papirus => "gh/PapirusDevelopmentTeam/papirus_icons@master"@,
        IconSource::HomelabSvg => "gh/loganmarchione/homelab-svg-assets@main"@,
    }
}

/// The package a source is listed under.
pub fn source_package_name(src: IconSource) -> (p: &'static str)
    ensures
        p@ == source_package(src),
{
    match src {
        IconSource::DashboardIcons => "homarr-labs/dashboard-icons",
        IconSource::Selfhst => "gh/selfhst/icons@master",
        IconSource::SimpleIcons => "gh/simple-icons/simple-icons@master",
        IconSource::Papirus => "gh/PapirusDevelopmentTeam/papirus_icons@master",
        IconSource::HomelabSvg => "gh/loganmarchione/homelab-svg-assets@main",
    }
}

/// The URL listing a source's files: the GitHub tree of Dashboard Icons, or
/// the jsDelivr flat listing of the source's package.
pub open spec fn spec_listing_url(src: IconSource) -> Seq<char> {
    match src {
        IconSource::DashboardIcons => "https://api.github.com/repos/homarr-labs/dashboard-icons/git/trees/main?recursive=true"@,
        _ => "https://data.jsdelivr.com/v1/packages/"@ + source_package(src) + "?structure=flat"@,
    }
}

/// The URL that lists a source's files.
pub fn listing_url(src: IconSource) -> (url: String)
    ensures
        url@ == spec_listing_url(src),
{
    match src {
        IconSource::DashboardIcons => String::from_str(
            "https://api.github.com/repos/homarr-labs/dashboard-icons/git/trees/main?recursive=true",
        ),
        _ => {
            let a = concat_str("https://data.jsdelivr.com/v1/packages/", source_package_name(src));
            concat_str(a.as_str(), "?structure=flat")
        },
    }
}

fn has_prefix(s: &Vec<char>, p: &str) -> (b: bool)
    ensures
        b == starts_with(s@, p@),
{
    let pc = chars_of(p);
    starts_with_chars(s.as_slice(), pc.as_slice())
}

fn has_suffix(s: &Vec<char>, p: &str) -> (b: bool)
    ensures
        b == ends_with(s@, p@),
{
    let pc = chars_of(p);
    ends_with_chars(s.as_slice(), pc.as_slice())
}

/// Whether a listed file of a source is an icon.
pub fn accepts(src: IconSource, path: &str) -> (b: bool)
    ensures
        b == source_accepts(src, path@),
{
    let c = chars_of(path);
    match src {
        IconSource::DashboardIcons => has_prefix(&c, "svg/") && has_suffix(&c, ".svg"),
        IconSource::Selfhst => has_suffix(&c, ".svg"),
        IconSource::SimpleIcons => has_prefix(&c, "icons/") && has_suffix(&c, ".svg"),
        IconSource::Papirus => has_suffix(&c, ".svg"),
        IconSource::HomelabSvg => has_prefix(&c, "assets/") && has_suffix(&c, ".svg"),
    }
}

/// The entry a source makes of one of its icon files.
pub fn entry_for(src: IconSource, path: &str) -> (e: IconEntry)
    ensures
        source_entry(src, path@, e),
{
    match src {
        IconSource::SimpleIcons => {
            let stem = match path_file_stem(path) {
                Some(s) => s,
                None => String::from_str("unknown"),
            };
            let u = concat_str("https://cdn.simpleicons.org/", stem.as_str());
            IconEntry { n: stem, u, s: String::from_str("simple-icons") }
        },
        IconSource::DashboardIcons => IconEntry {
            n: humanize_path(path),
            u: concat_str("https://cdn.jsdelivr.net/gh/homarr-labs/dashboard-icons/", path),
            s: String::from_str("dashboard-icons"),
        },
        IconSource::Selfhst => IconEntry {
            n: humanize_path(path),
            u: concat_str("https://cdn.jsdelivr.net/gh/selfhst/icons/", path),
            s: String::from_str("selfh.st"),
        },
        IconSource::Papirus => IconEntry {
            n: humanize_path(path),
            u: concat_str("https://cdn.jsdelivr.net/gh/PapirusDevelopmentTeam/papirus_icons/", path),
            s: String::from_str("papirus"),
        },
        IconSource::HomelabSvg => IconEntry {
            n: humanize_path(path),
            u: concat_str("https://cdn.jsdelivr.net/gh/loganmarchione/homelab-svg-assets/", path),
            s: String::from_str("homelab-svg"),
        },
    }
}

/// The entries a source makes of its file listing: one for each icon file, in
/// listing order.
pub fn source_entries(src: IconSource, paths: &Vec<String>) -> (entries: Vec<IconEntry>)
    ensures
        entries@.len() == texts(paths@).filter(|p: Seq<char>| source_accepts(src, p)).len(),
        forall|i: int| 0 <= i < entries@.len() ==> source_entry(
            src,
            texts(paths@).filter(|p: Seq<char>| source_accepts(src, p))[i],
            #[trigger] entries@[i],
        ),
{
    let ghost pred = |p: Seq<char>| source_accepts(src, p);
    let ghost all = texts(paths@);
    let mut entries: Vec<IconEntry> = Vec::new();
    let mut i: usize = 0;
    proof {
        reveal(Seq::filter);
        assert(all.take(0) =~= Seq::<Seq<char>>::empty());
    }
    while i < paths.len()
        invariant
            i <= paths@.len(),
            all == texts(paths@),
            pred == (|p: Seq<char>| source_accepts(src, p)),
            entries@.len() == all.take(i as int).filter(pred).len(),
            forall|k: int| 0 <= k < entries@.len() ==> source_entry(src, all.take(i as int).filter(pred)[k], #[trigger] entries@[k]),
        decreases paths@.len() - i,
    {
        let p = &paths[i];
        proof {
            assert(all.take(i + 1) =~= all.take(i as int).push(p@));
            all.take(i as int).lemma_filter_push(p@, pred);
        }
        if accepts(src, p.as_str()) {
            let e = entry_for(src, p.as_str());
            entries.push(e);
        }
        i = i + 1;
    }
    assert(all.take(paths@.len() as int) =~= all);
    entries
}

/// The Dashboard Icons entries of a file listing.
pub fn dashboard_icons_entries(paths: &Vec<String>) -> (entries: Vec<IconEntry>)
    ensures
        entries@.len() == texts(paths@).filter(|p: Seq<char>| source_accepts(IconSource::DashboardIcons, p)).len(),
        forall|i: int| 0 <= i < entries@.len() ==> source_entry(IconSource::DashboardIcons,
            texts(paths@).filter(|p: Seq<char>| source_accepts(IconSource::DashboardIcons, p))[i], #[trigger] entries@[i]),
{
    source_entries(IconSource::DashboardIcons, paths)
}

/// The selfh.st entries of a file listing.
pub fn selfhst_entries(paths: &Vec<String>) -> (entries: Vec<IconEntry>)
    ensures
        entries@.len() == texts(paths@).filter(|p: Seq<char>| source_accepts(IconSource::Selfhst, p)).len(),
        forall|i: int| 0 <= i < entries@.len() ==> source_entry(IconSource::Selfhst,
            texts(paths@).filter(|p: Seq<char>| source_accepts(IconSource::Selfhst, p))[i], #[trigger] entries@[i]),
{
    source_entries(IconSource::Selfhst, paths)
}

/// The Simple Icons entries of a file listing.
pub fn simple_icons_entries(paths: &Vec<String>) -> (entries: Vec<IconEntry>)
    ensures
        entries@.len() == texts(paths@).filter(|p: Seq<char>| source_accepts(IconSource::SimpleIcons, p)).len(),
        forall|i: int| 0 <= i < entries@.len() ==> source_entry(IconSource::SimpleIcons,
            texts(paths@).filter(|p: Seq<char>| source_accepts(IconSource::SimpleIcons, p))[i], #[trigger] entries@[i]),
{
    source_entries(IconSource::SimpleIcons, paths)
}

/// The Papirus entries of a file listing.
pub fn papirus_entries(paths: &Vec<String>) -> (entries: Vec<IconEntry>)
    ensures
        entries@.len() == texts(paths@).filter(|p: Seq<char>| source_accepts(IconSource::Papirus, p)).len(),
        forall|i: int| 0 <= i < entries@.len() ==> source_entry(IconSource::Papirus,
            texts(paths@).filter(|p: Seq<char>| source_accepts(IconSource::Papirus, p))[i], #[trigger] entries@[i]),
{
    source_entries(IconSource::Papirus, paths)
}

/// The Homelab SVG Assets entries of a file listing.
pub fn homelab_svg_entries(paths: &Vec<String>) -> (entries: Vec<IconEntry>)
    ensures
        entries@.len() == texts(paths@).filter(|p: Seq<char>| source_accepts(IconSource::HomelabSvg, p)).len(),
        forall|i: int| 0 <= i < entries@.len() ==> source_entry(IconSource::HomelabSvg,
            texts(paths@).filter(|p: Seq<char>| source_accepts(IconSource::HomelabSvg, p))[i], #[trigger] entries@[i]),
{
    source_entries(IconSource::HomelabSvg, paths)
}

// ---------------------------------------------------------------------------
// Merging the sources into one catalogue
// ---------------------------------------------------------------------------

/// The entries of the sources that answered, in source order.
pub open spec fn answered_entries(results: Seq<Result<Vec<IconEntry>, String>>) -> Seq<IconEntry>
    decreases results.len(),
{
    if results.len() == 0 {
        Seq::empty()
    } else {
        let rest = answered_entries(results.drop_last());
        match results.last() {
            Ok(v) => rest + v@,
            Err(_) => rest,
        }
    }
}

/// The names paired with the entries of `s`.
pub open spec fn taken_names(s: Seq<(IconEntry, Seq<char>)>) -> Set<Seq<char>> {
    Set::new(|n: Seq<char>| exists|j: int| 0 <= j < s.len() && (#[trigger] s[j]).1 == n)
}

/// The pairs of `s` whose names do not occur earlier in `s`: on a clash of
/// names the first pair wins.
pub open spec fn first_by_name(s: Seq<(IconEntry, Seq<char>)>) -> Seq<(IconEntry, Seq<char>)>
    decreases s.len(),
{
    if s.len() == 0 {
        s
    } else {
        let d = first_by_name(s.drop_last());
        if taken_names(s.drop_last()).contains(s.last().1) {
            d
        } else {
            d.push(s.last())
        }
    }
}

/// Paired entries are ordered by their names.
pub open spec fn by_name() -> spec_fn((IconEntry, Seq<char>)) -> Seq<char> {
    |p: (IconEntry, Seq<char>)| p.1
}

/// Lexicographic order on names.
pub open spec fn name_le() -> spec_fn(Seq<char>, Seq<char>) -> bool {
    |a: Seq<char>, b: Seq<char>| chars_le(a, b)
}

/// `c` is the catalogue merged from the paired entries `ps`: the first pair
/// of each name, sorted by name, as entries.
pub open spec fn is_merge(c: Seq<IconEntry>, ps: Seq<(IconEntry, Seq<char>)>) -> bool {
    exists|sorted: Seq<(IconEntry, Seq<char>)>|
        #[trigger] is_stable_sort(sorted, first_by_name(ps), by_name(), name_le()) && c == entries_of(sorted)
}

/// `c` is the catalogue merged from the sources' answers: the entries of the
/// sources that answered, in source order, one per lower-case name (the first
/// seen wins), sorted by lower-case name.
pub open spec fn is_catalogue(c: Seq<IconEntry>, results: Seq<Result<Vec<IconEntry>, String>>) -> bool {
    is_merge(c, keyed_all(answered_entries(results)))
}

proof fn lemma_answered_step(results: Seq<Result<Vec<IconEntry>, String>>, i: int)
    requires
        0 <= i < results.len(),
    ensures
        answered_entries(results.take(i + 1)) == answered_entries(results.take(i)) + match results[i] {
            Ok(v) => v@,
            Err(_) => Seq::<IconEntry>::empty(),
        },
{
    assert(results.take(i + 1).drop_last() =~= results.take(i));
    if results[i] is Err {
        assert(answered_entries(results.take(i)) + Seq::<IconEntry>::empty() =~= answered_entries(results.take(i)));
    }
}

proof fn lemma_first_by_name_push(s: Seq<(IconEntry, Seq<char>)>, x: (IconEntry, Seq<char>))
    ensures
        first_by_name(s.push(x)) == if taken_names(s).contains(x.1) {
            first_by_name(s)
        } else {
            first_by_name(s).push(x)
        },
        taken_names(s.push(x)) == taken_names(s).insert(x.1),
{
    assert(s.push(x).drop_last() =~= s);
    assert forall|n: Seq<char>| taken_names(s.push(x)).contains(n) <==> taken_names(s).insert(x.1).contains(n) by {
        if taken_names(s).contains(n) {
            let j = choose|j: int| 0 <= j < s.len() && (#[trigger] s[j]).1 == n;
            assert(s.push(x)[j] == s[j]);
        }
        if x.1 == n {
            assert(s.push(x)[s.len() as int] == x);
        }
        if taken_names(s.push(x)).contains(n) {
            let j = choose|j: int| 0 <= j < s.push(x).len() && (#[trigger] s.push(x)[j]).1 == n;
            if j < s.len() {
                assert(s[j] == s.push(x)[j]);
            }
        }
    }
    assert(taken_names(s.push(x)) =~= taken_names(s).insert(x.1));
}

/// Merging keeps an entry whenever there is one.
pub proof fn lemma_first_by_name_empty(s: Seq<(IconEntry, Seq<char>)>)
    ensures
        first_by_name(s).len() == 0 <==> s.len() == 0,
    decreases s.len(),
{
    if s.len() > 0 {
        lemma_first_by_name_empty(s.drop_last());
        if taken_names(s.drop_last()).contains(s.last().1) {
            assert(s.drop_last().len() > 0);
        }
    }
}

proof fn lemma_name_le_total()
    ensures
        total_ordering(name_le()),
{
    lemma_chars_le_total_order();
    assert(name_le() =~= (|a: Seq<char>, b: Seq<char>| chars_le(a, b)));
}

/// Inserting into `out` at `j` adds exactly `x`'s name to the names taken.
proof fn lemma_name_taken_insert(out: Seq<(IconEntry, Seq<char>)>, j: int, x: (IconEntry, Seq<char>))
    requires
        0 <= j <= out.len(),
    ensures
        taken_names(out.insert(j, x)) == taken_names(out).insert(x.1),
{
    let o2 = out.insert(j, x);
    assert forall|n: Seq<char>| taken_names(o2).contains(n) <==> taken_names(out).insert(x.1).contains(n) by {
        if taken_names(out).contains(n) {
            let m = choose|m: int| 0 <= m < out.len() && (#[trigger] out[m]).1 == n;
            if m < j {
                assert(o2[m] == out[m]);
            } else {
                assert(o2[m + 1] == out[m]);
            }
        }
        if x.1 == n {
            assert(o2[j] == x);
        }
        if taken_names(o2).contains(n) {
            let m = choose|m: int| 0 <= m < o2.len() && (#[trigger] o2[m]).1 == n;
            if m < j {
                assert(o2[m] == out[m]);
            } else if m > j {
                assert(o2[m] == out[m - 1]);
            }
        }
    }
    assert(taken_names(o2) =~= taken_names(out).insert(x.1));
}

/// What merging has built after the pairs `seen`: `out` holds the first pair
/// of each name, sorted by name, and `names` their names as characters.
pub open spec fn merge_state(out: Seq<(IconEntry, String)>, names: Seq<Vec<char>>, seen: Seq<(IconEntry, Seq<char>)>) -> bool {
    &&& total_ordering(name_le())
    &&& is_stable_sort(keyed_view(out), first_by_name(seen), by_name(), name_le())
    &&& out.len() == first_by_name(seen).len()
    &&& names.len() == out.len()
    &&& forall|m: int| 0 <= m < out.len() ==> names[m]@ == (#[trigger] out[m]).1@
    &&& taken_names(seen) == taken_names(keyed_view(out))
}

/// In a list sorted by name, the number of names that come no later than
/// `name`.
fn sorted_position(names: &Vec<Vec<char>>, name: &Vec<char>) -> (j: usize)
    requires
        forall|a: int, b: int| 0 <= a < b < names@.len() ==> chars_le(#[trigger] names@[a]@, #[trigger] names@[b]@),
    ensures
        j <= names@.len(),
        forall|m: int| 0 <= m < j ==> chars_le(#[trigger] names@[m]@, name@),
        forall|m: int| j <= m < names@.len() ==> !chars_le(#[trigger] names@[m]@, name@),
{
    let mut lo: usize = 0;
    let mut hi: usize = names.len();
    while lo < hi
        invariant
            lo <= hi <= names@.len(),
            forall|a: int, b: int| 0 <= a < b < names@.len() ==> chars_le(#[trigger] names@[a]@, #[trigger] names@[b]@),
            forall|m: int| 0 <= m < lo ==> chars_le(#[trigger] names@[m]@, name@),
            forall|m: int| hi <= m < names@.len() ==> !chars_le(#[trigger] names@[m]@, name@),
        decreases hi - lo,
    {
        let mid = lo + (hi - lo) / 2;
        if chars_le_exec(names[mid].as_slice(), name.as_slice()) {
            proof {
                assert forall|m: int| 0 <= m < mid + 1 implies chars_le(#[trigger] names@[m]@, name@) by {
                    if m < mid {
                        lemma_chars_le_trans(names@[m]@, names@[mid as int]@, name@);
                    }
                }
            }
            lo = mid + 1;
        } else {
            proof {
                assert forall|m: int| mid <= m < names@.len() implies !chars_le(#[trigger] names@[m]@, name@) by {
                    if m > mid && chars_le(names@[m]@, name@) {
                        lemma_chars_le_trans(names@[mid as int]@, names@[m]@, name@);
                    }
                }
            }
            hi = mid;
        }
    }
    lo
}

proof fn lemma_merge_names_sorted(out: Seq<(IconEntry, String)>, names: Seq<Vec<char>>, seen: Seq<(IconEntry, Seq<char>)>)
    requires
        merge_state(out, names, seen),
    ensures
        forall|a: int, b: int| 0 <= a < b < names.len() ==> chars_le(#[trigger] names[a]@, #[trigger] names[b]@),
{
    let ov = keyed_view(out);
    assert forall|a: int, b: int| 0 <= a < b < names.len() implies chars_le(#[trigger] names[a]@, #[trigger] names[b]@) by {
        assert((name_le())((by_name())(ov[a]), (by_name())(ov[b])));
        assert(names[a]@ == out[a].1@ && names[b]@ == out[b].1@);
    }
}

proof fn lemma_merge_taken(out: Seq<(IconEntry, String)>, names: Seq<Vec<char>>, seen: Seq<(IconEntry, Seq<char>)>, x: (IconEntry, Seq<char>), j: int)
    requires
        merge_state(out, names, seen),
        0 < j <= out.len(),
        names[j - 1]@ == x.1,
    ensures
        merge_state(out, names, seen.push(x)),
{
    lemma_first_by_name_push(seen, x);
    let ov = keyed_view(out);
    assert(ov[j - 1].1 == x.1);
    assert(taken_names(ov).contains(x.1));
    assert(taken_names(seen).insert(x.1) =~= taken_names(ov));
}

proof fn lemma_merge_absent(out: Seq<(IconEntry, String)>, names: Seq<Vec<char>>, x: (IconEntry, Seq<char>), name: Vec<char>, j: int)
    requires
        names.len() == out.len(),
        forall|m: int| 0 <= m < out.len() ==> names[m]@ == (#[trigger] out[m]).1@,
        forall|a: int, b: int| 0 <= a < b < names.len() ==> chars_le(#[trigger] names[a]@, #[trigger] names[b]@),
        name@ == x.1,
        0 <= j <= out.len(),
        forall|m: int| 0 <= m < j ==> chars_le(#[trigger] names[m]@, name@),
        forall|m: int| j <= m < names.len() ==> !chars_le(#[trigger] names[m]@, name@),
        !(j > 0 && names[j - 1]@ == name@),
    ensures
        !taken_names(keyed_view(out)).contains(x.1),
{
    let ov = keyed_view(out);
    assert forall|m: int| 0 <= m < ov.len() implies (#[trigger] ov[m]).1 != x.1 by {
        assert(names[m]@ == out[m].1@);
        if m < j {
            if ov[m].1 == x.1 {
                if m < j - 1 {
                    assert(chars_le(names[m]@, names[j - 1]@));
                }
                assert(chars_le(names[j - 1]@, name@));
                lemma_chars_le_antisym(names[j - 1]@, name@);
            }
        } else {
            lemma_chars_le_refl(name@);
        }
    }
}

proof fn lemma_insert_names(out: Seq<(IconEntry, String)>, names: Seq<Vec<char>>, x: (IconEntry, String), name: Vec<char>, j: int)
    requires
        names.len() == out.len(),
        forall|m: int| 0 <= m < out.len() ==> names[m]@ == (#[trigger] out[m]).1@,
        name@ == x.1@,
        0 <= j <= out.len(),
    ensures
        forall|m: int| 0 <= m < out.len() + 1 ==> names.insert(j, name)[m]@ == (#[trigger] out.insert(j, x)[m]).1@,
        keyed_view(out.insert(j, x)) == keyed_view(out).insert(j, (x.0, x.1@)),
{
    let o2 = out.insert(j, x);
    let n2 = names.insert(j, name);
    assert forall|m: int| 0 <= m < o2.len() implies n2[m]@ == (#[trigger] o2[m]).1@ by {
        if m < j {
            assert(o2[m] == out[m] && n2[m] == names[m]);
        } else if m > j {
            assert(o2[m] == out[m - 1] && n2[m] == names[m - 1]);
        }
    }
    assert(keyed_view(o2) =~= keyed_view(out).insert(j, (x.0, x.1@)));
}

proof fn lemma_merge_new(out: Seq<(IconEntry, String)>, names: Seq<Vec<char>>, seen: Seq<(IconEntry, Seq<char>)>, x: (IconEntry, String), name: Vec<char>, j: int)
    requires
        merge_state(out, names, seen),
        name@ == x.1@,
        0 <= j <= out.len(),
        forall|m: int| 0 <= m < j ==> chars_le(#[trigger] names[m]@, name@),
        forall|m: int| j <= m < names.len() ==> !chars_le(#[trigger] names[m]@, name@),
        !(j > 0 && names[j - 1]@ == name@),
    ensures
        merge_state(out.insert(j, x), names.insert(j, name), seen.push((x.0, x.1@))),
{
    let px = (x.0, x.1@);
    let ov = keyed_view(out);
    lemma_first_by_name_push(seen, px);
    lemma_merge_names_sorted(out, names, seen);
    lemma_merge_absent(out, names, px, name, j);
    assert forall|m: int| 0 <= m < j implies #[trigger] (name_le())((by_name())(ov[m]), (by_name())(px)) by {
        assert(names[m]@ == out[m].1@);
    }
    assert forall|m: int| j <= m < ov.len() implies !#[trigger] (name_le())((by_name())(ov[m]), (by_name())(px)) by {
        assert(names[m]@ == out[m].1@);
    }
    lemma_stable_insert(ov, first_by_name(seen), px, j, by_name(), name_le());
    lemma_insert_names(out, names, x, name, j);
    lemma_name_taken_insert(ov, j, px);
}

/// Take one more pair into the catalogue being merged: it is kept, in its
/// place by name, unless a pair of the same name came before it.
fn add_entry(out: &mut Vec<(IconEntry, String)>, names: &mut Vec<Vec<char>>, x: (IconEntry, String), Ghost(seen): Ghost<Seq<(IconEntry, Seq<char>)>>)
    requires
        merge_state(old(out)@, old(names)@, seen),
    ensures
        merge_state(final(out)@, final(names)@, seen.push((x.0, x.1@))),
{
    proof {
        lemma_merge_names_sorted(out@, names@, seen);
    }
    let name = chars_of(x.1.as_str());
    let j = sorted_position(names, &name);
    if j > 0 && chars_equal(names[j - 1].as_slice(), name.as_slice()) {
        proof {
            lemma_merge_taken(out@, names@, seen, (x.0, x.1@), j as int);
        }
    } else {
        proof {
            lemma_merge_new(out@, names@, seen, x, name, j as int);
        }
        out.insert(j, x);
        names.insert(j, name);
    }
}

/// Merge entries, each paired with its name in lower case: the first pair of
/// each name is kept (see [`first_by_name`]), and the kept entries are sorted
/// by name.
pub fn merge_keyed(ps: Vec<(IconEntry, String)>) -> (merged: Vec<IconEntry>)
    ensures
        is_merge(merged@, keyed_view(ps@)),
        merged@.len() == 0 <==> ps@.len() == 0,
{
    let ghost raw = ps@;
    let ghost input = keyed_view(ps@);
    let mut out: Vec<(IconEntry, String)> = Vec::new();
    let mut names: Vec<Vec<char>> = Vec::new();
    proof {
        lemma_stable_sort_empty::<(IconEntry, Seq<char>), Seq<char>>(by_name(), name_le());
        lemma_name_le_total();
        assert(input.take(0) =~= Seq::<(IconEntry, Seq<char>)>::empty());
        assert(keyed_view(out@) =~= Seq::<(IconEntry, Seq<char>)>::empty());
        assert(taken_names(Seq::<(IconEntry, Seq<char>)>::empty()) =~= taken_names(keyed_view(out@)));
    }
    for x in it: ps.into_iter()
        invariant
            it.seq() == raw,
            input == keyed_view(raw),
            merge_state(out@, names@, input.take(it.index() as int)),
    {
        let ghost i = it.index();
        proof {
            assert(input[i as int] == (x.0, x.1@));
            assert(input.take(i + 1) =~= input.take(i as int).push((x.0, x.1@)));
        }
        add_entry(&mut out, &mut names, x, Ghost(input.take(i as int)));
    }
    proof {
        assert(input.take(input.len() as int) =~= input);
        lemma_first_by_name_empty(input);
    }
    let ghost sorted = keyed_view(out@);
    let merged = unpair(out);
    proof {
        assert(is_stable_sort(sorted, first_by_name(input), by_name(), name_le()));
    }
    merged
}

/// Merge the sources' entries into one catalogue (see [`is_catalogue`]).
/// An error when no source gave an entry.
pub fn merge_catalogue(results: Vec<Result<Vec<IconEntry>, String>>) -> (merged: Result<Vec<IconEntry>, AppError>)
    ensures
        merged is Err <==> answered_entries(results@).len() == 0,
        merged matches Err(e) ==> is_internal(e, "all icon sources failed"@),
        merged matches Ok(v) ==> is_catalogue(v@, results@),
{
    let ghost input = results@;
    let mut ps: Vec<(IconEntry, String)> = Vec::new();
    proof {
        assert(input.take(0) =~= Seq::<Result<Vec<IconEntry>, String>>::empty());
        assert(keyed_view(ps@) =~= keyed_all(Seq::<IconEntry>::empty()));
    }
    for result in it: results.into_iter()
        invariant
            it.seq() == input,
            keyed_view(ps@) == keyed_all(answered_entries(input.take(it.index() as int))),
    {
        let ghost i = it.index();
        let ghost before = answered_entries(input.take(i as int));
        proof {
            lemma_answered_step(input, i as int);
        }
        match result {
            Ok(v) => {
                let ghost vs = v@;
                proof {
                    assert(before + vs.take(0) =~= before);
                }
                for e in jt: v.into_iter()
                    invariant
                        jt.seq() == vs,
                        keyed_view(ps@) == keyed_all(before + vs.take(jt.index() as int)),
                {
                    let ghost k = jt.index();
                    let lower = to_lowercase(e.n.as_str());
                    proof {
                        assert(before + vs.take(k + 1) =~= (before + vs.take(k as int)).push(e));
                        assert(keyed_all((before + vs.take(k as int)).push(e)) =~= keyed_all(before + vs.take(k as int)).push(keyed(e)));
                        assert(keyed_view(ps@.push((e, lower))) =~= keyed_view(ps@).push((e, lower@)));
                    }
                    ps.push((e, lower));
                }
                proof {
                    assert(vs.take(vs.len() as int) =~= vs);
                }
            },
            Err(_) => {
                proof {
                    assert(before + Seq::<IconEntry>::empty() =~= before);
                }
            },
        }
    }
    proof {
        assert(input.take(input.len() as int) =~= input);
    }
    if ps.len() == 0 {
        Err(AppError::Internal(String::from_str("all icon sources failed")))
    } else {
        Ok(merge_keyed(ps))
    }
}

// ---------------------------------------------------------------------------
// Laws
// ---------------------------------------------------------------------------

/// The catalogue file lies in the same cache directory as the background
/// photo, for every configuration path whose parent directory is missing or
/// non-empty.  (For a bare file name, whose parent is empty, the photo goes
/// to `./cache` and the catalogue to `cache/icons.json`.)
pub proof fn lemma_icon_cache_beside_photo_cache(parent: Option<Seq<char>>)
    requires
        !(parent matches Some(p) && p.len() == 0),
    ensures
        icon_cache_path_of_parent(parent) == join_path(crate::background::cache_dir_of_parent(parent), "icons.json"@),
{
}

/// The pairs kept by `first_by_name` are pairs of `s` whose names are all
/// different, and they cover every name of `s`.
proof fn lemma_first_by_name_names(s: Seq<(IconEntry, Seq<char>)>)
    ensures
        taken_names(first_by_name(s)) == taken_names(s),
        forall|i: int| 0 <= i < first_by_name(s).len() ==> s.contains(#[trigger] first_by_name(s)[i]),
        forall|i: int, j: int| 0 <= i < j < first_by_name(s).len()
            ==> (#[trigger] first_by_name(s)[i]).1 != (#[trigger] first_by_name(s)[j]).1,
    decreases s.len(),
{
    if s.len() == 0 {
        assert(taken_names(first_by_name(s)) =~= taken_names(s));
    } else {
        let d = s.drop_last();
        let x = s.last();
        lemma_first_by_name_names(d);
        lemma_first_by_name_push(d, x);
        assert(d.push(x) =~= s);
        let f = first_by_name(s);
        assert forall|i: int| 0 <= i < f.len() implies s.contains(#[trigger] f[i]) by {
            if i < first_by_name(d).len() {
                assert(f[i] == first_by_name(d)[i]);
                assert(d.contains(f[i]));
                let k = choose|k: int| 0 <= k < d.len() && d[k] == f[i];
                assert(s[k] == d[k]);
            } else {
                assert(f[i] == x);
                assert(s[s.len() - 1] == x);
            }
        }
        if !taken_names(d).contains(x.1) {
            lemma_first_by_name_push(first_by_name(d), x);
            assert forall|i: int, j: int| 0 <= i < j < f.len() implies (#[trigger] f[i]).1 != (#[trigger] f[j]).1 by {
                if j == f.len() - 1 {
                    assert(f[j] == x);
                    assert(f[i] == first_by_name(d)[i]);
                    if f[i].1 == x.1 {
                        assert(taken_names(first_by_name(d)).contains(x.1));
                    }
                } else {
                    assert(f[i] == first_by_name(d)[i] && f[j] == first_by_name(d)[j]);
                }
            }
        } else {
            assert(taken_names(d).insert(x.1) =~= taken_names(d));
        }
    }
}

/// A catalogue holds each lower-case name at most once, and only entries the
/// sources gave.
pub proof fn lemma_catalogue_names_distinct(catalogue: Seq<IconEntry>, results: Seq<Result<Vec<IconEntry>, String>>)
    requires
        is_catalogue(catalogue, results),
    ensures
        forall|i: int| 0 <= i < catalogue.len() ==> answered_entries(results).contains(#[trigger] catalogue[i]),
        forall|i: int, j: int| 0 <= i < j < catalogue.len()
            ==> lower_name(#[trigger] catalogue[i]) != lower_name(#[trigger] catalogue[j]),
{
    let entries = answered_entries(results);
    let ps = keyed_all(entries);
    let f = first_by_name(ps);
    let sorted = choose|sorted: Seq<(IconEntry, Seq<char>)>|
        #[trigger] is_stable_sort(sorted, first_by_name(ps), by_name(), name_le()) && catalogue == entries_of(sorted);
    lemma_first_by_name_names(ps);
    assert forall|i: int| 0 <= i < sorted.len() implies ps.contains(#[trigger] sorted[i]) by {
        let k = sorted[i].1;
        assert(sorted.contains(sorted[i]));
        lemma_group_member(sorted, by_name(), sorted[i]);
        assert(with_key(sorted, by_name(), k) == with_key(f, by_name(), k));
        lemma_group_member(f, by_name(), sorted[i]);
        let m = choose|m: int| 0 <= m < f.len() && f[m] == sorted[i];
        assert(ps.contains(f[m]));
    }
    assert forall|i: int| 0 <= i < catalogue.len() implies entries.contains(#[trigger] catalogue[i]) && sorted[i].1 == lower_name(catalogue[i]) by {
        assert(catalogue[i] == sorted[i].0);
        lemma_keyed_member(entries, sorted[i]);
    }
    assert forall|i: int, j: int| 0 <= i < j < catalogue.len()
        implies lower_name(#[trigger] catalogue[i]) != lower_name(#[trigger] catalogue[j]) by {
        if lower_name(catalogue[i]) == lower_name(catalogue[j]) {
            let k = sorted[i].1;
            assert(sorted[j].1 == k);
            lemma_group_two(sorted, by_name(), i, j);
            assert(with_key(sorted, by_name(), k) == with_key(f, by_name(), k));
            assert forall|a: int, b: int| 0 <= a < b < f.len() implies (by_name())(#[trigger] f[a])
                != (by_name())(#[trigger] f[b]) by {}
            lemma_group_at_most_one(f, by_name(), k);
        }
    }
}

/// Which listed files each source takes as icons: Dashboard Icons the `.svg`
/// files under `svg/`, Simple Icons those under `icons/`, Homelab SVG Assets
/// those under `assets/`, and selfh.st and Papirus every `.svg` file.
pub proof fn lemma_source_filters(path: Seq<char>)
    ensures
        source_accepts(IconSource::DashboardIcons, path) <==> (starts_with(path, "svg/"@) && ends_with(path, ".svg"@)),
        source_accepts(IconSource::SimpleIcons, path) <==> (starts_with(path, "icons/"@) && ends_with(path, ".svg"@)),
        source_accepts(IconSource::HomelabSvg, path) <==> (starts_with(path, "assets/"@) && ends_with(path, ".svg"@)),
        source_accepts(IconSource::Selfhst, path) <==> ends_with(path, ".svg"@),
        source_accepts(IconSource::Papirus, path) <==> ends_with(path, ".svg"@),
{
}

/// Every file named `<dir>/<n>.svg` is an icon of the source whose directory
/// `dir` is, and every `<n>.svg` an icon of selfh.st and Papirus.
pub proof fn lemma_source_accepts_named_svgs(n: Seq<char>)
    ensures
        source_accepts(IconSource::DashboardIcons, "svg/"@ + n + ".svg"@),
        source_accepts(IconSource::SimpleIcons, "icons/"@ + n + ".svg"@),
        source_accepts(IconSource::HomelabSvg, "assets/"@ + n + ".svg"@),
        source_accepts(IconSource::Selfhst, n + ".svg"@),
        source_accepts(IconSource::Papirus, n + ".svg"@),
{
    lemma_prefix_suffix("svg/"@, n, ".svg"@);
    lemma_prefix_suffix("icons/"@, n, ".svg"@);
    lemma_prefix_suffix("assets/"@, n, ".svg"@);
    lemma_prefix_suffix(Seq::<char>::empty(), n, ".svg"@);
    assert(Seq::<char>::empty() + n =~= n);
}

proof fn lemma_prefix_suffix(p: Seq<char>, n: Seq<char>, x: Seq<char>)
    ensures
        starts_with(p + n + x, p),
        ends_with(p + n + x, x),
{
    let w = p + n + x;
    assert(w.take(p.len() as int) =~= p);
    assert(w.skip(w.len() - x.len()) =~= x);
}

} // verus!
