//! The leaderboard of a session: each user's best score, best first.
use vstd::prelude::*;

verus! {

/// One user's place on a leaderboard. Entries compare by score alone.
#[derive(Debug, Clone)]
pub struct LeaderboardEntry {
    pub score: u32,
    pub username: String,
    pub user_id: i64,
}

impl PartialEq for LeaderboardEntry {
    fn eq(&self, other: &LeaderboardEntry) -> (r: bool) {
        self.score == other.score
    }
}

impl vstd::std_specs::cmp::PartialEqSpecImpl for LeaderboardEntry {
    open spec fn obeys_eq_spec() -> bool {
        true
    }

    open spec fn eq_spec(&self, other: &LeaderboardEntry) -> bool {
        self.score == other.score
    }
}

impl Eq for LeaderboardEntry {

}

/// How two scores compare.
pub open spec fn score_ordering(a: u32, b: u32) -> core::cmp::Ordering {
    if a < b {
        core::cmp::Ordering::Less
    } else if a == b {
        core::cmp::Ordering::Equal
    } else {
        core::cmp::Ordering::Greater
    }
}

impl PartialOrd for LeaderboardEntry {
    fn partial_cmp(&self, other: &LeaderboardEntry) -> (r: Option<core::cmp::Ordering>) {
        if self.score < other.score {
            Some(core::cmp::Ordering::Less)
        } else if self.score == other.score {
            Some(core::cmp::Ordering::Equal)
        } else {
            Some(core::cmp::Ordering::Greater)
        }
    }
}

impl vstd::std_specs::cmp::PartialOrdSpecImpl for LeaderboardEntry {
    open spec fn obeys_partial_cmp_spec() -> bool {
        true
    }

    open spec fn partial_cmp_spec(&self, other: &LeaderboardEntry) -> Option<core::cmp::Ordering> {
        Some(score_ordering(self.score, other.score))
    }
}

/// A user's score and name, as a leaderboard keeps them.
pub type Standing = (u32, Seq<char>);

/// Best score per user, highest first.
#[derive(Debug, Clone)]
pub struct Leaderboard {
    entries: Vec<LeaderboardEntry>,
}

/// No two entries belong to one user.
pub open spec fn ids_unique(s: Seq<LeaderboardEntry>) -> bool {
    forall|i: int, j: int|
        0 <= i < s.len() && 0 <= j < s.len() && i != j ==> #[trigger] s[i].user_id
            != #[trigger] s[j].user_id
}

/// Scores do not increase along the sequence.
pub open spec fn sorted_desc(s: Seq<LeaderboardEntry>) -> bool {
    forall|i: int, j: int| 0 <= i <= j < s.len() ==> #[trigger] s[i].score >= #[trigger] s[j].score
}

/// Whether some entry belongs to user `id`.
pub open spec fn has_user(s: Seq<LeaderboardEntry>, id: i64) -> bool {
    exists|i: int| 0 <= i < s.len() && #[trigger] s[i].user_id == id
}

/// The standings that entries hold, by user.
pub open spec fn standings(s: Seq<LeaderboardEntry>) -> Map<i64, Standing> {
    Map::new(
        |id: i64| has_user(s, id),
        |id: i64|
            {
                let i = choose|i: int| 0 <= i < s.len() && #[trigger] s[i].user_id == id;
                (s[i].score, s[i].username@)
            },
    )
}

/// The larger of two scores.
pub open spec fn max_score(a: u32, b: u32) -> u32 {
    if a >= b {
        a
    } else {
        b
    }
}

/// Standings after a user reports a score: a known user keeps the better of
/// the two scores and their name; a new user enters with the entry as given.
pub open spec fn spec_update(m: Map<i64, Standing>, e: LeaderboardEntry) -> Map<i64, Standing> {
    if m.contains_key(e.user_id) {
        m.insert(e.user_id, (max_score(m[e.user_id].0, e.score), m[e.user_id].1))
    } else {
        m.insert(e.user_id, (e.score, e.username@))
    }
}

/// Standings after reporting each entry of `es` in turn, from `m`.
pub open spec fn spec_update_all(m: Map<i64, Standing>, es: Seq<LeaderboardEntry>) -> Map<
    i64,
    Standing,
>
    decreases es.len(),
{
    if es.len() == 0 {
        m
    } else {
        spec_update(spec_update_all(m, es.drop_last()), es.last())
    }
}

/// Whether some entry of `es` is a report of user `id`.
pub open spec fn reported(es: Seq<LeaderboardEntry>, id: i64) -> bool {
    exists|k: int| 0 <= k < es.len() && #[trigger] es[k].user_id == id
}

/// The best score that user `id` reported in `es`, where there is one.
pub open spec fn best_reported(es: Seq<LeaderboardEntry>, id: i64) -> u32
    decreases es.len(),
{
    if es.len() == 0 {
        0
    } else if es.last().user_id != id {
        best_reported(es.drop_last(), id)
    } else if reported(es.drop_last(), id) {
        max_score(best_reported(es.drop_last(), id), es.last().score)
    } else {
        es.last().score
    }
}

proof fn lemma_standing_at(s: Seq<LeaderboardEntry>, i: int)
    requires
        ids_unique(s),
        0 <= i < s.len(),
    ensures
        standings(s).contains_key(s[i].user_id),
        standings(s)[s[i].user_id] == (s[i].score, s[i].username@),
{
    let id = s[i].user_id;
    assert(has_user(s, id));
    let j = choose|j: int| 0 <= j < s.len() && #[trigger] s[j].user_id == id;
    assert(j == i);
}

proof fn lemma_remove_entry(s: Seq<LeaderboardEntry>, i: int)
    requires
        ids_unique(s),
        sorted_desc(s),
        0 <= i < s.len(),
    ensures
        ids_unique(s.remove(i)),
        sorted_desc(s.remove(i)),
        !has_user(s.remove(i), s[i].user_id),
        standings(s.remove(i)) == standings(s).remove(s[i].user_id),
{
    let t = s.remove(i);
    assert forall|k: int| 0 <= k < t.len() implies #[trigger] t[k] == if k < i {
        s[k]
    } else {
        s[k + 1]
    } by {}
    assert forall|a: int, b: int|
        0 <= a < t.len() && 0 <= b < t.len() && a != b implies #[trigger] t[a].user_id
        != #[trigger] t[b].user_id by {
        let a2 = if a < i { a } else { a + 1 };
        let b2 = if b < i { b } else { b + 1 };
        assert(s[a2].user_id != s[b2].user_id);
    }
    assert forall|a: int, b: int| 0 <= a <= b < t.len() implies #[trigger] t[a].score
        >= #[trigger] t[b].score by {
        let a2 = if a < i { a } else { a + 1 };
        let b2 = if b < i { b } else { b + 1 };
        assert(s[a2].score >= s[b2].score);
    }
    if has_user(t, s[i].user_id) {
        let k = choose|k: int| 0 <= k < t.len() && #[trigger] t[k].user_id == s[i].user_id;
        let k2 = if k < i { k } else { k + 1 };
        assert(s[k2].user_id != s[i].user_id);
    }
    let m = standings(s).remove(s[i].user_id);
    assert forall|id: i64| #[trigger] standings(t).contains_key(id) <==> m.contains_key(id) by {
        if has_user(t, id) {
            let k = choose|k: int| 0 <= k < t.len() && #[trigger] t[k].user_id == id;
            let k2 = if k < i { k } else { k + 1 };
            assert(s[k2].user_id == id);
        }
        if has_user(s, id) && id != s[i].user_id {
            let k = choose|k: int| 0 <= k < s.len() && #[trigger] s[k].user_id == id;
            assert(k != i);
            let k2 = if k < i { k } else { k - 1 };
            assert(t[k2].user_id == id);
        }
    }
    assert forall|id: i64| standings(t).contains_key(id) implies #[trigger] standings(t)[id] == m[id] by {
        let k = choose|k: int| 0 <= k < t.len() && #[trigger] t[k].user_id == id;
        let k2 = if k < i { k } else { k + 1 };
        lemma_standing_at(t, k);
        lemma_standing_at(s, k2);
    }
    assert(standings(t) =~= m);
}

proof fn lemma_insert_entry(s: Seq<LeaderboardEntry>, p: int, e: LeaderboardEntry)
    requires
        ids_unique(s),
        sorted_desc(s),
        !has_user(s, e.user_id),
        0 <= p <= s.len(),
        forall|k: int| 0 <= k < p ==> #[trigger] s[k].score >= e.score,
        p < s.len() ==> s[p].score < e.score,
    ensures
        ids_unique(s.insert(p, e)),
        sorted_desc(s.insert(p, e)),
        standings(s.insert(p, e)) == standings(s).insert(e.user_id, (e.score, e.username@)),
{
    let t = s.insert(p, e);
    assert forall|k: int| 0 <= k < t.len() implies #[trigger] t[k] == if k < p {
        s[k]
    } else if k == p {
        e
    } else {
        s[k - 1]
    } by {}
    assert forall|k: int| 0 <= k < s.len() implies #[trigger] s[k].user_id != e.user_id by {
        if s[k].user_id == e.user_id {
            assert(has_user(s, e.user_id));
        }
    }
    assert forall|a: int, b: int|
        0 <= a < t.len() && 0 <= b < t.len() && a != b implies #[trigger] t[a].user_id
        != #[trigger] t[b].user_id by {
        if a != p && b != p {
            let a2 = if a < p { a } else { a - 1 };
            let b2 = if b < p { b } else { b - 1 };
            assert(s[a2].user_id != s[b2].user_id);
        } else if a == p {
            let b2 = if b < p { b } else { b - 1 };
            assert(s[b2].user_id != e.user_id);
        } else {
            let a2 = if a < p { a } else { a - 1 };
            assert(s[a2].user_id != e.user_id);
        }
    }
    assert forall|a: int, b: int| 0 <= a <= b < t.len() implies #[trigger] t[a].score
        >= #[trigger] t[b].score by {
        if a < p && b < p {
            assert(s[a].score >= s[b].score);
        } else if a < p && b == p {
            assert(s[a].score >= e.score);
        } else if a < p {
            assert(s[a].score >= s[b - 1].score);
        } else if a == p && b > p {
            assert(s[p].score >= s[b - 1].score);
        } else if a > p {
            assert(s[a - 1].score >= s[b - 1].score);
        }
    }
    let m = standings(s).insert(e.user_id, (e.score, e.username@));
    assert forall|id: i64| #[trigger] standings(t).contains_key(id) <==> m.contains_key(id) by {
        if has_user(t, id) {
            let k = choose|k: int| 0 <= k < t.len() && #[trigger] t[k].user_id == id;
            if k < p {
                assert(s[k].user_id == id);
            } else if k > p {
                assert(s[k - 1].user_id == id);
            }
        }
        if has_user(s, id) {
            let k = choose|k: int| 0 <= k < s.len() && #[trigger] s[k].user_id == id;
            let k2 = if k < p { k } else { k + 1 };
            assert(t[k2].user_id == id);
        }
        if id == e.user_id {
            assert(t[p].user_id == id);
        }
    }
    assert forall|id: i64| standings(t).contains_key(id) implies #[trigger] standings(t)[id] == m[id] by {
        let k = choose|k: int| 0 <= k < t.len() && #[trigger] t[k].user_id == id;
        lemma_standing_at(t, k);
        if k < p {
            lemma_standing_at(s, k);
        } else if k > p {
            lemma_standing_at(s, k - 1);
        }
    }
    assert(standings(t) =~= m);
}

/// Starting from an empty leaderboard, after any sequence of reports each
/// user who reported stands exactly once, with the best score they
/// reported, and nobody else stands.
pub proof fn lemma_best_score_kept(es: Seq<LeaderboardEntry>)
    ensures
        forall|id: i64| #[trigger]
            spec_update_all(Map::empty(), es).contains_key(id) <==> reported(es, id),
        forall|id: i64|
            reported(es, id) ==> #[trigger] spec_update_all(Map::empty(), es)[id].0
                == best_reported(es, id),
    decreases es.len(),
{
    if es.len() > 0 {
        let p = es.drop_last();
        lemma_best_score_kept(p);
        assert forall|id: i64| #[trigger] reported(es, id) <==> (reported(p, id) || es.last().user_id == id) by {
            if reported(p, id) {
                let k = choose|k: int| 0 <= k < p.len() && #[trigger] p[k].user_id == id;
                assert(es[k] == p[k]);
            }
            if reported(es, id) && es.last().user_id != id {
                let k = choose|k: int| 0 <= k < es.len() && #[trigger] es[k].user_id == id;
                assert(p[k] == es[k]);
            }
            if es.last().user_id == id {
                assert(es[es.len() - 1].user_id == id);
            }
        }
        let m = spec_update_all(Map::empty(), p);
        assert(spec_update_all(Map::empty(), es) == spec_update(m, es.last()));
        assert forall|id: i64|
            #[trigger] spec_update_all(Map::empty(), es).contains_key(id) <==> reported(es, id) by {
            assert(m.contains_key(id) <==> reported(p, id));
            assert(reported(es, id) <==> (reported(p, id) || es.last().user_id == id));
        }
        assert forall|id: i64| reported(es, id) implies #[trigger] spec_update_all(
            Map::empty(),
            es,
        )[id].0 == best_reported(es, id) by {
            assert(m.contains_key(id) <==> reported(p, id));
            assert(reported(es, id) <==> (reported(p, id) || es.last().user_id == id));
            if reported(p, id) {
                assert(m[id].0 == best_reported(p, id));
            }
        }
    }
}

/// The position of the entry of user `id`, if there is one.
fn position_of(entries: &Vec<LeaderboardEntry>, id: i64) -> (r: Option<usize>)
    ensures
        match r {
            Some(i) => i < entries@.len() && entries@[i as int].user_id == id,
            None => !has_user(entries@, id),
        },
{
    let mut i: usize = 0;
    while i < entries.len()
        invariant
            i <= entries@.len(),
            forall|k: int| 0 <= k < i ==> #[trigger] entries@[k].user_id != id,
        decreases entries@.len() - i,
    {
        if entries[i].user_id == id {
            return Some(i);
        }
        i = i + 1;
    }
    None
}

impl Default for Leaderboard {
    fn default() -> (r: Leaderboard)
        ensures
            r.wf(),
            r@ == Map::<i64, Standing>::empty(),
    {
        Leaderboard::new()
    }
}

impl Leaderboard {
    /// Records a score of a user. A user already on the board keeps the
    /// better of their two scores and the name they first had; a new user is
    /// added as given. Entries stay best first.
    pub fn update(&mut self, entry: LeaderboardEntry)
        requires
            old(self).wf(),
        ensures
            final(self).wf(),
            final(self)@ == spec_update(old(self)@, entry),
    {
        let ghost s0 = self.entries@;
        let new_entry = match position_of(&self.entries, entry.user_id) {
            Some(i) => {
                proof {
                    lemma_standing_at(s0, i as int);
                    lemma_remove_entry(s0, i as int);
                }
                let current = self.entries.remove(i);
                let score = if current.score >= entry.score {
                    current.score
                } else {
                    entry.score
                };
                LeaderboardEntry { score, username: current.username, user_id: current.user_id }
            },
            None => entry,
        };
        let ghost s1 = self.entries@;
        let mut p: usize = 0;
        while p < self.entries.len() && self.entries[p].score >= new_entry.score
            invariant
                p <= self.entries@.len(),
                self.entries@ == s1,
                forall|k: int| 0 <= k < p ==> #[trigger] s1[k].score >= new_entry.score,
            decreases self.entries@.len() - p,
        {
            p = p + 1;
        }
        proof {
            lemma_insert_entry(s1, p as int, new_entry);
        }
        self.entries.insert(p, new_entry);
        proof {
            if standings(s0).contains_key(entry.user_id) {
                assert(standings(s1).insert(entry.user_id, (new_entry.score, new_entry.username@))
                    =~= spec_update(standings(s0), entry));
            } else {
                assert(s1 == s0);
            }
        }
    }

    /// Entries are one per user, best score first.
    pub closed spec fn wf(&self) -> bool {
        ids_unique(self.entries@) && sorted_desc(self.entries@)
    }

    /// Each user's standing.
    pub closed spec fn view(&self) -> Map<i64, Standing> {
        standings(self.entries@)
    }

    /// An empty leaderboard.
    pub fn new() -> (r: Leaderboard)
        ensures
            r.wf(),
            r@ == Map::<i64, Standing>::empty(),
    {
        let r = Leaderboard { entries: Vec::new() };
        assert(standings(r.entries@) =~= Map::<i64, Standing>::empty());
        r
    }

    /// The entries, best score first; entries of equal score come in no
    /// particular order. The leaderboard is left as it is.
    pub fn rankings(&self) -> (r: Vec<LeaderboardEntry>)
        requires
            self.wf(),
        ensures
            sorted_desc(r@),
            ids_unique(r@),
            standings(r@) == self@,
            forall|k: int|
                0 <= k < r@.len() ==> self@[#[trigger] r@[k].user_id] == (r@[k].score, r@[k].username@),
    {
        let mut r: Vec<LeaderboardEntry> = Vec::new();
        let mut i: usize = 0;
        while i < self.entries.len()
            invariant
                i <= self.entries@.len(),
                r@.len() == i,
                forall|k: int|
                    0 <= k < i ==> (#[trigger] r@[k]).user_id == self.entries@[k].user_id
                        && r@[k].score == self.entries@[k].score && r@[k].username@
                        == self.entries@[k].username@,
            decreases self.entries@.len() - i,
        {
            let e = &self.entries[i];
            r.push(LeaderboardEntry { score: e.score, username: e.username.clone(), user_id: e.user_id });
            i = i + 1;
        }
        let ghost s = self.entries@;
        assert forall|a: int, b: int|
            0 <= a < r@.len() && 0 <= b < r@.len() && a != b implies #[trigger] r@[a].user_id
            != #[trigger] r@[b].user_id by {
            assert(s[a].user_id != s[b].user_id);
        }
        assert forall|a: int, b: int| 0 <= a <= b < r@.len() implies #[trigger] r@[a].score
            >= #[trigger] r@[b].score by {
            assert(s[a].score >= s[b].score);
        }
        assert forall|k: int| 0 <= k < r@.len() implies self@[#[trigger] r@[k].user_id] == (
        r@[k].score, r@[k].username@) by {
            lemma_standing_at(s, k);
        }
        assert forall|id: i64| #[trigger] has_user(r@, id) <==> has_user(s, id) by {
            if has_user(s, id) {
                let k = choose|k: int| 0 <= k < s.len() && #[trigger] s[k].user_id == id;
                assert(r@[k].user_id == id);
            }
            if has_user(r@, id) {
                let k = choose|k: int| 0 <= k < r@.len() && #[trigger] r@[k].user_id == id;
                assert(s[k].user_id == id);
            }
        }
        assert forall|id: i64| has_user(r@, id) implies #[trigger] standings(r@)[id] == standings(s)[id] by {
            let k = choose|k: int| 0 <= k < r@.len() && #[trigger] r@[k].user_id == id;
            lemma_standing_at(r@, k);
            lemma_standing_at(s, k);
        }
        assert(standings(r@) =~= standings(s));
        r
    }
}

} // verus!
