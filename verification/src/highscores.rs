//! The score table: an ordered, deduplicated top-25 collection of score
//! records, together with the session's personal best.

use vstd::prelude::*;

verus! {

/// Most entries the table ever holds.
pub const MAX_ENTRIES: usize = 25;

/// One leaderboard entry: player name, score, level reached and the Unix
/// timestamp (in seconds) at which it was recorded. Immutable once created.
pub struct HighScore {
    pub name: String,
    pub score: u32,
    pub level: u32,
    pub timestamp: i64,
}

/// Relies on `chrono::Utc::now` (and `DateTime::timestamp`) for the current
/// Unix timestamp. The result depends on the wall clock, so nothing is
/// promised of it.
#[verifier::external_body]
fn current_timestamp() -> i64 {
    chrono::Utc::now().timestamp()
}

impl HighScore {
    /// A record stamped with the current time.
    pub fn new(name: String, score: u32, level: u32) -> (r: Self)
        ensures
            r.name == name,
            r.score == score,
            r.level == level,
    {
        Self { name, score, level, timestamp: current_timestamp() }
    }
}

impl Clone for HighScore {
    fn clone(&self) -> (r: Self)
        ensures
            r == *self,
    {
        HighScore {
            name: self.name.clone(),
            score: self.score,
            level: self.level,
            timestamp: self.timestamp,
        }
    }
}

/// Two records collide exactly when they agree on the `(name, score)` pair;
/// this is the key the merge deduplicates by.
pub open spec fn same_key(a: HighScore, b: HighScore) -> bool {
    a.name@ == b.name@ && a.score == b.score
}

/// Some entry of `s` shares its `(name, score)` key with `r`.
pub open spec fn has_key(s: Seq<HighScore>, r: HighScore) -> bool {
    exists|i: int| 0 <= i < s.len() && same_key(s[i], r)
}

/// No two entries of `s` share a `(name, score)` key.
pub open spec fn distinct_keys(s: Seq<HighScore>) -> bool {
    forall|i: int, j: int| 0 <= i < j < s.len() ==> !same_key(s[i], s[j])
}

/// Sorted descending by score; ties may stand in any order.
pub open spec fn sorted_desc(s: Seq<HighScore>) -> bool {
    forall|i: int, j: int| 0 <= i <= j < s.len() ==> s[i].score >= s[j].score
}

/// Index at which `x` lands when inserted into `s` keeping descending order:
/// the first position whose entry scores strictly below `x`, so `x` goes
/// after every entry that ties with it. With `s` sorted this reproduces a
/// stable descending sort of `s.push(x)`.
pub open spec fn insert_pos(s: Seq<HighScore>, x: HighScore) -> int
    decreases s.len(),
{
    if s.len() == 0 {
        0
    } else if s[0].score < x.score {
        0
    } else {
        1 + insert_pos(s.drop_first(), x)
    }
}

/// `s` with `x` inserted at its descending-order position.
pub open spec fn insert_sorted(s: Seq<HighScore>, x: HighScore) -> Seq<HighScore> {
    s.insert(insert_pos(s, x), x)
}

/// The table's cap: at most the top 25 entries survive.
pub open spec fn cap_entries(s: Seq<HighScore>) -> Seq<HighScore> {
    if s.len() <= MAX_ENTRIES {
        s
    } else {
        s.take(MAX_ENTRIES as int)
    }
}

pub proof fn lemma_insert_pos_bounds(s: Seq<HighScore>, x: HighScore)
    ensures
        0 <= insert_pos(s, x) <= s.len(),
    decreases s.len(),
{
    if s.len() > 0 && s[0].score >= x.score {
        lemma_insert_pos_bounds(s.drop_first(), x);
    }
}

/// `insert_pos` is exactly the first index scoring below `x`.
pub proof fn lemma_insert_pos_is(s: Seq<HighScore>, x: HighScore, p: int)
    requires
        0 <= p <= s.len(),
        forall|k: int| 0 <= k < p ==> s[k].score >= x.score,
        p < s.len() ==> s[p].score < x.score,
    ensures
        insert_pos(s, x) == p,
    decreases s.len(),
{
    if s.len() > 0 && p > 0 {
        assert(s[0].score >= x.score);
        let t = s.drop_first();
        assert(forall|k: int| 0 <= k < p - 1 ==> t[k] == s[k + 1]);
        lemma_insert_pos_is(t, x, p - 1);
    }
}

/// What insertion does, index by index.
pub proof fn lemma_insert_sorted_facts(s: Seq<HighScore>, x: HighScore)
    ensures
        insert_sorted(s, x).len() == s.len() + 1,
        forall|i: int| 0 <= i < insert_pos(s, x) ==> #[trigger] insert_sorted(s, x)[i] == s[i],
        insert_sorted(s, x)[insert_pos(s, x)] == x,
        forall|i: int|
            insert_pos(s, x) <= i < s.len() ==> #[trigger] insert_sorted(s, x)[i + 1] == s[i],
{
    lemma_insert_pos_bounds(s, x);
    s.insert_ensures(insert_pos(s, x), x);
}

/// Insertion keeps descending order.
pub proof fn lemma_insert_sorted_sorted(s: Seq<HighScore>, x: HighScore)
    requires
        sorted_desc(s),
    ensures
        sorted_desc(insert_sorted(s, x)),
{
    let p = insert_pos(s, x);
    lemma_insert_pos_bounds(s, x);
    lemma_insert_pos_first_below(s, x);
    lemma_insert_sorted_facts(s, x);
    let r = insert_sorted(s, x);
    assert forall|i: int, j: int| 0 <= i <= j < r.len() implies r[i].score >= r[j].score by {
        if i < p && j < p {
        } else if i < p && j == p {
        } else if i == p && j == p {
        } else if i == p && j > p {
            assert(r[j] == s[j - 1]);
        } else if i < p && j > p {
            assert(r[j] == s[j - 1]);
        } else {
            assert(r[i] == s[i - 1] && r[j] == s[j - 1]);
        }
    }
}

/// Every entry before the insertion point ties with or beats `x`; from the
/// point on, every entry of `s` scores strictly below `x` when `s` is sorted.
pub proof fn lemma_insert_pos_first_below(s: Seq<HighScore>, x: HighScore)
    requires
        sorted_desc(s),
    ensures
        forall|k: int| 0 <= k < insert_pos(s, x) ==> s[k].score >= x.score,
        forall|k: int| insert_pos(s, x) <= k < s.len() ==> s[k].score < x.score,
    decreases s.len(),
{
    if s.len() > 0 && s[0].score >= x.score {
        let t = s.drop_first();
        assert(forall|k: int| 0 <= k < t.len() ==> t[k] == s[k + 1]);
        assert forall|i: int, j: int| 0 <= i <= j < t.len() implies t[i].score >= t[j].score by {
            assert(s[i + 1].score >= s[j + 1].score);
        }
        lemma_insert_pos_first_below(t, x);
        lemma_insert_pos_bounds(s, x);
        lemma_insert_pos_bounds(t, x);
        assert forall|k: int| 0 <= k < insert_pos(s, x) implies s[k].score >= x.score by {
            if k >= 1 {
                assert(t[k - 1].score >= x.score);
            }
        }
        assert forall|k: int| insert_pos(s, x) <= k < s.len() implies s[k].score < x.score by {
            if k >= 1 {
                assert(t[k - 1].score < x.score);
            }
        }
    }
}

/// A prefix of a descending-sorted sequence is descending-sorted.
pub proof fn lemma_cap_entries_sorted(s: Seq<HighScore>)
    requires
        sorted_desc(s),
    ensures
        sorted_desc(cap_entries(s)),
        cap_entries(s).len() <= MAX_ENTRIES,
{
}

/// `s` with every entry removed whose `(name, score)` key already occurred
/// earlier: the first occurrence of each key survives, in its original
/// place.
pub open spec fn dedup_keys(s: Seq<HighScore>) -> Seq<HighScore>
    decreases s.len(),
{
    if s.len() == 0 {
        Seq::empty()
    } else if has_key(s.drop_last(), s.last()) {
        dedup_keys(s.drop_last())
    } else {
        dedup_keys(s.drop_last()).push(s.last())
    }
}

/// A stable descending sort by score: entries are taken left to right and
/// each lands after every entry it ties with, so equal scores keep their
/// relative order.
pub open spec fn sort_by_score(s: Seq<HighScore>) -> Seq<HighScore>
    decreases s.len(),
{
    if s.len() == 0 {
        Seq::empty()
    } else {
        insert_sorted(sort_by_score(s.drop_last()), s.last())
    }
}

/// What a merge leaves in the table: local entries followed by remote ones,
/// deduplicated by `(name, score)` keeping the first (hence local entries
/// win collisions), sorted descending, capped at 25.
pub open spec fn merged_scores(local: Seq<HighScore>, remote: Seq<HighScore>) -> Seq<HighScore> {
    cap_entries(sort_by_score(dedup_keys(local + remote)))
}

/// Appending one entry adds exactly its key.
pub proof fn lemma_has_key_push(s: Seq<HighScore>, x: HighScore, y: HighScore)
    ensures
        has_key(s.push(x), y) <==> (has_key(s, y) || same_key(x, y)),
{
    let t = s.push(x);
    if has_key(s, y) {
        let i = choose|i: int| 0 <= i < s.len() && same_key(s[i], y);
        assert(t[i] == s[i]);
        assert(has_key(t, y));
    }
    if same_key(x, y) {
        assert(t[s.len() as int] == x);
        assert(has_key(t, y));
    }
    if has_key(t, y) {
        let i = choose|i: int| 0 <= i < t.len() && same_key(t[i], y);
        if i < s.len() {
            assert(s[i] == t[i]);
            assert(has_key(s, y));
        } else {
            assert(t[i] == x);
        }
    }
}

/// Insertion adds exactly the key of the inserted entry.
pub proof fn lemma_insert_sorted_has(s: Seq<HighScore>, x: HighScore, y: HighScore)
    ensures
        has_key(insert_sorted(s, x), y) <==> (has_key(s, y) || same_key(x, y)),
{
    let p = insert_pos(s, x);
    let r = insert_sorted(s, x);
    lemma_insert_pos_bounds(s, x);
    s.insert_ensures(p, x);
    if has_key(s, y) {
        let i = choose|i: int| 0 <= i < s.len() && same_key(s[i], y);
        if i < p {
            assert(r[i] == s[i]);
        } else {
            assert(r[i + 1] == s[i]);
        }
        assert(has_key(r, y));
    }
    if same_key(x, y) {
        assert(r[p] == x);
        assert(has_key(r, y));
    }
    if has_key(r, y) {
        let i = choose|i: int| 0 <= i < r.len() && same_key(r[i], y);
        if i < p {
            assert(r[i] == s[i]);
            assert(has_key(s, y));
        } else if i == p {
            assert(r[i] == x);
        } else {
            assert(r[i] == s[i - 1]);
            assert(has_key(s, y));
        }
    }
}

/// Inserting an entry whose key is fresh keeps the keys distinct.
pub proof fn lemma_insert_sorted_distinct(s: Seq<HighScore>, x: HighScore)
    requires
        distinct_keys(s),
        !has_key(s, x),
    ensures
        distinct_keys(insert_sorted(s, x)),
{
    let p = insert_pos(s, x);
    let r = insert_sorted(s, x);
    lemma_insert_pos_bounds(s, x);
    s.insert_ensures(p, x);
    assert forall|i: int, j: int| 0 <= i < j < r.len() implies !same_key(r[i], r[j]) by {
        if i < p && j < p {
            assert(r[i] == s[i] && r[j] == s[j]);
        } else if i < p && j == p {
            assert(r[i] == s[i] && r[j] == x);
            assert(!same_key(s[i], x));
        } else if i < p && j > p {
            assert(r[i] == s[i] && r[j] == s[j - 1]);
        } else if i == p {
            assert(r[i] == x && r[j] == s[j - 1]);
            assert(!same_key(s[j - 1], x));
            assert(!same_key(x, s[j - 1]));
        } else {
            assert(r[i] == s[i - 1] && r[j] == s[j - 1]);
        }
    }
}

/// Deduplication neither adds nor loses keys.
pub proof fn lemma_dedup_keys_has(s: Seq<HighScore>, y: HighScore)
    ensures
        has_key(dedup_keys(s), y) <==> has_key(s, y),
    decreases s.len(),
{
    if s.len() > 0 {
        let t = s.drop_last();
        let l = s.last();
        assert(s =~= t.push(l));
        lemma_dedup_keys_has(t, y);
        lemma_has_key_push(t, l, y);
        if has_key(t, l) {
            // the dropped duplicate's key is already present in t
            if same_key(l, y) {
                let i = choose|i: int| 0 <= i < t.len() && same_key(t[i], l);
                assert(same_key(t[i], y));
                assert(has_key(t, y));
            }
        } else {
            lemma_has_key_push(dedup_keys(t), l, y);
        }
    }
}

/// Deduplication leaves the keys pairwise distinct.
pub proof fn lemma_dedup_keys_distinct(s: Seq<HighScore>)
    ensures
        distinct_keys(dedup_keys(s)),
        dedup_keys(s).len() <= s.len(),
    decreases s.len(),
{
    if s.len() > 0 {
        let t = s.drop_last();
        let l = s.last();
        lemma_dedup_keys_distinct(t);
        if !has_key(t, l) {
            let d = dedup_keys(t);
            lemma_dedup_keys_has(t, l);
            let r = d.push(l);
            assert forall|i: int, j: int| 0 <= i < j < r.len() implies !same_key(r[i], r[j]) by {
                if j < d.len() {
                    assert(r[i] == d[i] && r[j] == d[j]);
                } else {
                    assert(r[i] == d[i] && r[j] == l);
                    assert(!has_key(d, l));
                    assert(!same_key(d[i], l));
                }
            }
        }
    }
}

/// Sorting neither adds nor loses keys.
pub proof fn lemma_sort_by_score_has(s: Seq<HighScore>, y: HighScore)
    ensures
        has_key(sort_by_score(s), y) <==> has_key(s, y),
    decreases s.len(),
{
    if s.len() > 0 {
        let t = s.drop_last();
        let l = s.last();
        assert(s =~= t.push(l));
        lemma_sort_by_score_has(t, y);
        lemma_has_key_push(t, l, y);
        lemma_insert_sorted_has(sort_by_score(t), l, y);
    }
}

/// Sorting sorts, and keeps the length.
pub proof fn lemma_sort_by_score_sorted(s: Seq<HighScore>)
    ensures
        sorted_desc(sort_by_score(s)),
        sort_by_score(s).len() == s.len(),
    decreases s.len(),
{
    if s.len() > 0 {
        let t = s.drop_last();
        let l = s.last();
        lemma_sort_by_score_sorted(t);
        lemma_insert_sorted_sorted(sort_by_score(t), l);
        lemma_insert_sorted_facts(sort_by_score(t), l);
    }
}

/// Sorting distinct keys keeps them distinct.
pub proof fn lemma_sort_by_score_distinct(s: Seq<HighScore>)
    requires
        distinct_keys(s),
    ensures
        distinct_keys(sort_by_score(s)),
    decreases s.len(),
{
    if s.len() > 0 {
        let t = s.drop_last();
        let l = s.last();
        assert forall|i: int, j: int| 0 <= i < j < t.len() implies !same_key(t[i], t[j]) by {
            assert(t[i] == s[i] && t[j] == s[j]);
        }
        lemma_sort_by_score_distinct(t);
        assert(!has_key(t, l)) by {
            if has_key(t, l) {
                let i = choose|i: int| 0 <= i < t.len() && same_key(t[i], l);
                assert(same_key(s[i], s[s.len() - 1]));
            }
        }
        lemma_sort_by_score_has(t, l);
        lemma_insert_sorted_distinct(sort_by_score(t), l);
    }
}

/// When `x` scores no higher than anything in `s`, it is inserted at the
/// very end.
pub proof fn lemma_insert_pos_at_end(s: Seq<HighScore>, x: HighScore)
    requires
        forall|k: int| 0 <= k < s.len() ==> s[k].score >= x.score,
    ensures
        insert_pos(s, x) == s.len(),
{
    lemma_insert_pos_is(s, x, s.len() as int);
}

/// Sorting an already descending-sorted sequence gives it back unchanged.
pub proof fn lemma_sort_of_sorted(s: Seq<HighScore>)
    requires
        sorted_desc(s),
    ensures
        sort_by_score(s) == s,
    decreases s.len(),
{
    if s.len() > 0 {
        let t = s.drop_last();
        let l = s.last();
        assert forall|i: int, j: int| 0 <= i <= j < t.len() implies t[i].score >= t[j].score by {
            assert(s[i].score >= s[j].score);
        }
        lemma_sort_of_sorted(t);
        assert forall|k: int| 0 <= k < t.len() implies t[k].score >= l.score by {
            assert(s[k].score >= s[s.len() - 1].score);
        }
        lemma_insert_pos_at_end(t, l);
        t.insert_ensures(t.len() as int, l);
        assert(insert_sorted(t, l) =~= s);
    }
}

/// Deduplicating a sequence whose keys are already distinct gives it back
/// unchanged.
pub proof fn lemma_dedup_of_distinct(s: Seq<HighScore>)
    requires
        distinct_keys(s),
    ensures
        dedup_keys(s) == s,
    decreases s.len(),
{
    if s.len() > 0 {
        let t = s.drop_last();
        let l = s.last();
        assert forall|i: int, j: int| 0 <= i < j < t.len() implies !same_key(t[i], t[j]) by {
            assert(t[i] == s[i] && t[j] == s[j]);
        }
        assert(!has_key(t, l)) by {
            if has_key(t, l) {
                let i = choose|i: int| 0 <= i < t.len() && same_key(t[i], l);
                assert(same_key(s[i], s[s.len() - 1]));
            }
        }
        lemma_dedup_of_distinct(t);
        assert(dedup_keys(s) =~= s);
    }
}

/// A prefix of distinct keys stays distinct.
pub proof fn lemma_cap_entries_distinct(s: Seq<HighScore>)
    requires
        distinct_keys(s),
    ensures
        distinct_keys(cap_entries(s)),
{
}

/// The personal best after recording `r`: it replaces `b` exactly when it
/// strictly beats it, or when no best was recorded yet.
pub open spec fn best_after(b: Option<HighScore>, r: HighScore) -> Option<HighScore> {
    match b {
        None => Some(r),
        Some(ob) => if r.score > ob.score {
            Some(r)
        } else {
            b
        },
    }
}

/// The personal best after a whole session of additions, applied in order.
pub open spec fn best_after_all(b: Option<HighScore>, recs: Seq<HighScore>) -> Option<HighScore>
    decreases recs.len(),
{
    if recs.len() == 0 {
        b
    } else {
        best_after(best_after_all(b, recs.drop_last()), recs.last())
    }
}

/// However many scores a session records, a personal best stands afterwards
/// and its score is at least every score ever inserted: `add_score` updates
/// the best exactly as `best_after` says, so this holds of any table after
/// any sequence of additions, even of records long pruned from `scores`.
pub proof fn lemma_local_best_dominates(b: Option<HighScore>, recs: Seq<HighScore>, i: int)
    requires
        0 <= i < recs.len(),
    ensures
        best_after_all(b, recs) matches Some(x) && x.score >= recs[i].score,
    decreases recs.len(),
{
    let t = recs.drop_last();
    if i < recs.len() - 1 {
        assert(t[i] == recs[i]);
        lemma_local_best_dominates(b, t, i);
    }
}

/// The 0-based position `score` would rank at: the first index whose entry
/// it ties with or beats.
pub open spec fn rank_pos(s: Seq<HighScore>, score: u32) -> int
    decreases s.len(),
{
    if s.len() == 0 {
        0
    } else if score >= s[0].score {
        0
    } else {
        1 + rank_pos(s.drop_first(), score)
    }
}

/// The 1-based rank `score` would occupy in a table with entries `s`, or
/// `None` when it would not place: one past its 0-based position when some
/// entry is tied or beaten, one past the length when the table still has
/// room, nothing otherwise.
pub open spec fn spec_rank_of(s: Seq<HighScore>, score: u32) -> Option<int> {
    let p = rank_pos(s, score);
    if p < s.len() {
        Some(p + 1)
    } else if s.len() < MAX_ENTRIES {
        Some(s.len() as int + 1)
    } else {
        None
    }
}

pub proof fn lemma_rank_pos_bounds(s: Seq<HighScore>, score: u32)
    ensures
        0 <= rank_pos(s, score) <= s.len(),
    decreases s.len(),
{
    if s.len() > 0 && score < s[0].score {
        lemma_rank_pos_bounds(s.drop_first(), score);
    }
}

/// A higher score never ranks below a lower one.
pub proof fn lemma_rank_pos_monotone(s: Seq<HighScore>, s1: u32, s2: u32)
    requires
        s1 >= s2,
    ensures
        rank_pos(s, s1) <= rank_pos(s, s2),
    decreases s.len(),
{
    if s.len() > 0 {
        if s1 >= s[0].score {
            lemma_rank_pos_bounds(s, s2);
            lemma_rank_pos_bounds(s.drop_first(), s2);
        } else {
            lemma_rank_pos_monotone(s.drop_first(), s1, s2);
        }
    }
}

/// Rank is monotonic: whenever two scores both place in the table, the
/// strictly greater one is assigned a rank no worse (no larger) than the
/// smaller one's.
pub proof fn lemma_get_rank_monotonic(s: Seq<HighScore>, s1: u32, s2: u32)
    requires
        s1 > s2,
        spec_rank_of(s, s1) is Some,
        spec_rank_of(s, s2) is Some,
    ensures
        spec_rank_of(s, s1).unwrap() <= spec_rank_of(s, s2).unwrap(),
{
    lemma_rank_pos_monotone(s, s1, s2);
    lemma_rank_pos_bounds(s, s1);
    lemma_rank_pos_bounds(s, s2);
}

/// `rank_pos` is exactly the first index whose entry `score` ties with or
/// beats.
pub proof fn lemma_rank_pos_is(s: Seq<HighScore>, score: u32, p: int)
    requires
        0 <= p <= s.len(),
        forall|k: int| 0 <= k < p ==> score < s[k].score,
        p < s.len() ==> score >= s[p].score,
    ensures
        rank_pos(s, score) == p,
    decreases s.len(),
{
    if s.len() > 0 && p > 0 {
        assert(score < s[0].score);
        let t = s.drop_first();
        assert(forall|k: int| 0 <= k < p - 1 ==> t[k] == s[k + 1]);
        lemma_rank_pos_is(t, score, p - 1);
    }
}

/// Reconciling twice changes nothing: merging the result of a merge with an
/// empty remote batch gives exactly the same content back.
pub proof fn lemma_merge_idempotent(local: Seq<HighScore>, remote: Seq<HighScore>)
    ensures
        merged_scores(merged_scores(local, remote), Seq::empty()) == merged_scores(local, remote),
{
    let m = merged_scores(local, remote);
    let pre = sort_by_score(dedup_keys(local + remote));
    lemma_dedup_keys_distinct(local + remote);
    lemma_sort_by_score_distinct(dedup_keys(local + remote));
    lemma_sort_by_score_sorted(dedup_keys(local + remote));
    lemma_cap_entries_distinct(pre);
    lemma_cap_entries_sorted(pre);
    assert(m + Seq::<HighScore>::empty() =~= m);
    lemma_dedup_of_distinct(m);
    lemma_sort_of_sorted(m);
    assert(cap_entries(m) == m);
}

/// Whether some entry of `v` shares its `(name, score)` key with `r`.
fn contains_key(v: &Vec<HighScore>, r: &HighScore) -> (b: bool)
    ensures
        b == has_key(v@, *r),
{
    let mut i: usize = 0;
    while i < v.len()
        invariant
            i <= v@.len(),
            forall|k: int| 0 <= k < i ==> !same_key(v@[k], *r),
        decreases v@.len() - i,
    {
        if v[i].score == r.score && v[i].name == r.name {
            assert(same_key(v@[i as int], *r));
            return true;
        }
        i += 1;
    }
    false
}

/// Folds the entries of `src` into `acc`, which already holds the sorted,
/// deduplicated image of `prefix`: entries whose key was seen before are
/// skipped, the rest land at their descending-order position.
fn merge_into(acc: &mut Vec<HighScore>, src: &Vec<HighScore>, Ghost(prefix): Ghost<Seq<HighScore>>)
    requires
        old(acc)@ == sort_by_score(dedup_keys(prefix)),
    ensures
        final(acc)@ == sort_by_score(dedup_keys(prefix + src@)),
{
    let mut i: usize = 0;
    while i < src.len()
        invariant
            i <= src@.len(),
            acc@ == sort_by_score(dedup_keys(prefix + src@.take(i as int))),
        decreases src@.len() - i,
    {
        let ghost p_cur = prefix + src@.take(i as int);
        let ghost p_next = prefix + src@.take(i as int + 1);
        proof {
            assert(p_next =~= p_cur.push(src@[i as int]));
            assert(p_next.drop_last() =~= p_cur);
            lemma_sort_by_score_has(dedup_keys(p_cur), src@[i as int]);
            lemma_dedup_keys_has(p_cur, src@[i as int]);
        }
        let x = &src[i];
        if !contains_key(acc, x) {
            let p = find_insert_pos(acc, x);
            proof {
                lemma_insert_pos_bounds(acc@, *x);
                assert(dedup_keys(p_next) =~= dedup_keys(p_cur).push(src@[i as int]));
                assert(dedup_keys(p_next).drop_last() =~= dedup_keys(p_cur));
            }
            acc.insert(p, x.clone());
        } else {
            proof {
                assert(dedup_keys(p_next) =~= dedup_keys(p_cur));
            }
        }
        i += 1;
        proof {
            assert(prefix + src@.take(i as int) =~= p_next);
        }
    }
    proof {
        assert(prefix + src@.take(src@.len() as int) =~= prefix + src@);
    }
}

/// The descending-order insertion point of `x` in `v`, found by a left-to-
/// right scan.
fn find_insert_pos(v: &Vec<HighScore>, x: &HighScore) -> (p: usize)
    ensures
        p == insert_pos(v@, *x),
{
    let mut i: usize = 0;
    while i < v.len()
        invariant
            i <= v@.len(),
            forall|k: int| 0 <= k < i ==> v@[k].score >= x.score,
        decreases v@.len() - i,
    {
        if v[i].score < x.score {
            proof {
                lemma_insert_pos_is(v@, *x, i as int);
            }
            return i;
        }
        i += 1;
    }
    proof {
        lemma_insert_pos_is(v@, *x, i as int);
    }
    i
}

/// An entry-by-entry copy of a record vector.
pub(crate) fn clone_scores(v: &Vec<HighScore>) -> (r: Vec<HighScore>)
    ensures
        r@ == v@,
{
    let mut r: Vec<HighScore> = Vec::new();
    let mut i: usize = 0;
    while i < v.len()
        invariant
            i <= v@.len(),
            r@ == v@.take(i as int),
        decreases v@.len() - i,
    {
        r.push(v[i].clone());
        proof {
            assert(r@ =~= v@.take(i + 1));
        }
        i += 1;
    }
    proof {
        assert(v@.take(v@.len() as int) =~= v@);
    }
    r
}

pub(crate) fn clone_best(b: &Option<HighScore>) -> (r: Option<HighScore>)
    ensures
        r == *b,
{
    match b {
        Some(h) => Some(h.clone()),
        None => None,
    }
}

impl Clone for Leaderboard {
    /// A deep copy: the snapshot handed to a sync worker.
    fn clone(&self) -> (r: Self)
        ensures
            r.scores@ == self.scores@,
            r.local_best == self.local_best,
    {
        Leaderboard { scores: clone_scores(&self.scores), local_best: clone_best(&self.local_best) }
    }
}

/// The in-memory ranked score table plus the session's personal best.
pub struct Leaderboard {
    pub scores: Vec<HighScore>,
    pub local_best: Option<HighScore>,
}

impl Leaderboard {
    /// The table's invariant: capped at 25 entries, always sorted descending.
    pub open spec fn wf(&self) -> bool {
        &&& self.scores@.len() <= MAX_ENTRIES
        &&& sorted_desc(self.scores@)
    }

    /// The empty table of a fresh session.
    pub fn new() -> (r: Self)
        ensures
            r.scores@.len() == 0,
            r.local_best is None,
            r.wf(),
    {
        Self { scores: Vec::new(), local_best: None }
    }

    /// Records one new score: the personal best rises to it when it beats
    /// the current one strictly, the record lands at its descending-order
    /// position (after any entry that ties with it), and the table is
    /// trimmed back to its cap. Never fails; duplicates are tolerated here
    /// and removed by the next merge.
    pub fn add_score(&mut self, high_score: HighScore)
        requires
            old(self).wf(),
        ensures
            final(self).scores@ == cap_entries(insert_sorted(old(self).scores@, high_score)),
            final(self).local_best == best_after(old(self).local_best, high_score),
            final(self).wf(),
            final(self).local_best matches Some(b) && b.score >= high_score.score,
            (match old(self).local_best {
                Some(ob) => final(self).local_best matches Some(b) && b.score >= ob.score,
                None => true,
            }),
    {
        let replace = match &self.local_best {
            None => true,
            Some(b) => high_score.score > b.score,
        };
        if replace {
            self.local_best = Some(high_score.clone());
        }
        let p = find_insert_pos(&self.scores, &high_score);
        proof {
            lemma_insert_pos_bounds(self.scores@, high_score);
        }
        self.scores.insert(p, high_score);
        if self.scores.len() > MAX_ENTRIES {
            self.scores.truncate(MAX_ENTRIES);
        }
        proof {
            lemma_insert_sorted_sorted(old(self).scores@, high_score);
            lemma_insert_sorted_facts(old(self).scores@, high_score);
            assert(final(self).scores@ =~= cap_entries(
                insert_sorted(old(self).scores@, high_score),
            ));
            lemma_cap_entries_sorted(insert_sorted(old(self).scores@, high_score));
        }
    }

    /// True exactly when `score` would enter the table: the table is not
    /// full, or `score` strictly beats its lowest entry. A score equal to
    /// the lowest entry of a full table does not qualify.
    pub fn is_high_score(&self, score: u32) -> (r: bool)
        ensures
            r == (self.scores@.len() < MAX_ENTRIES || score
                > self.scores@[self.scores@.len() - 1].score),
            self.scores@.len() < MAX_ENTRIES ==> r,
    {
        if self.scores.len() < MAX_ENTRIES {
            return true;
        }
        score > self.scores[self.scores.len() - 1].score
    }

    /// The 1-based rank `score` would occupy: one past the number of entries
    /// it cannot displace. `None` exactly when the table is full and every
    /// entry strictly beats `score`.
    pub fn get_rank(&self, score: u32) -> (r: Option<usize>)
        ensures
            r is Some <==> spec_rank_of(self.scores@, score) is Some,
            r matches Some(v) ==> spec_rank_of(self.scores@, score) == Some(v as int),
    {
        let mut i: usize = 0;
        while i < self.scores.len()
            invariant
                i <= self.scores@.len(),
                forall|k: int| 0 <= k < i ==> score < self.scores@[k].score,
            decreases self.scores@.len() - i,
        {
            if score >= self.scores[i].score {
                proof {
                    lemma_rank_pos_is(self.scores@, score, i as int);
                }
                return Some(i + 1);
            }
            i += 1;
        }
        proof {
            lemma_rank_pos_is(self.scores@, score, i as int);
        }
        if self.scores.len() < MAX_ENTRIES {
            Some(self.scores.len() + 1)
        } else {
            None
        }
    }

    /// The top of the table, for summary displays: its first three entries,
    /// or all of them when it holds fewer.
    pub fn get_top_3(&self) -> (r: Vec<HighScore>)
        ensures
            r@ == self.scores@.take(
                if self.scores@.len() < 3 {
                    self.scores@.len() as int
                } else {
                    3
                },
            ),
    {
        let mut r: Vec<HighScore> = Vec::new();
        let mut i: usize = 0;
        while i < self.scores.len() && i < 3
            invariant
                i <= self.scores@.len(),
                i <= 3,
                r@ == self.scores@.take(i as int),
            decreases self.scores@.len() - i,
        {
            r.push(self.scores[i].clone());
            proof {
                assert(r@ =~= self.scores@.take(i + 1));
            }
            i += 1;
        }
        r
    }

    /// Batch reconciliation with an externally supplied set of records:
    /// local entries and then the remote ones, deduplicated by
    /// `(name, score)` keeping the first occurrence (so local entries win
    /// collisions), sorted descending, capped at 25. Replaces `scores`
    /// wholesale; never touches `local_best`.
    pub fn merge_remote_scores(&mut self, remote_scores: Vec<HighScore>)
        ensures
            final(self).scores@ == merged_scores(old(self).scores@, remote_scores@),
            final(self).local_best == old(self).local_best,
            final(self).wf(),
            final(self).scores@.len() <= MAX_ENTRIES,
            distinct_keys(final(self).scores@),
    {
        let mut merged: Vec<HighScore> = Vec::new();
        proof {
            assert(merged@ =~= sort_by_score(dedup_keys(Seq::<HighScore>::empty())));
        }
        merge_into(&mut merged, &self.scores, Ghost(Seq::empty()));
        proof {
            assert(Seq::<HighScore>::empty() + self.scores@ =~= self.scores@);
        }
        merge_into(&mut merged, &remote_scores, Ghost(self.scores@));
        if merged.len() > MAX_ENTRIES {
            merged.truncate(MAX_ENTRIES);
        }
        proof {
            let c = old(self).scores@ + remote_scores@;
            lemma_dedup_keys_distinct(c);
            lemma_sort_by_score_distinct(dedup_keys(c));
            lemma_sort_by_score_sorted(dedup_keys(c));
            lemma_cap_entries_distinct(sort_by_score(dedup_keys(c)));
            lemma_cap_entries_sorted(sort_by_score(dedup_keys(c)));
            assert(merged@ =~= merged_scores(old(self).scores@, remote_scores@));
        }
        self.scores = merged;
    }

    /// The personal best's score, or 0 when no score was ever recorded.
    pub fn get_local_best_score(&self) -> (r: u32)
        ensures
            r == (match self.local_best {
                Some(b) => b.score,
                None => 0u32,
            }),
    {
        match &self.local_best {
            Some(b) => b.score,
            None => 0,
        }
    }
}

} // verus!

