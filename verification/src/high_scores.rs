use vstd::prelude::*;

verus! {

/// Keys for the high-score table, one per level.
#[derive(Clone, Copy, PartialEq, Eq, Structural, Debug)]
pub enum LevelKey {
    Wildfires,
    Hornets,
    Covid,
}

/// Each level creates this resource when it starts.
#[derive(Clone, Copy, PartialEq, Eq, Structural, Debug)]
pub struct CurrentLevelScoreResource {
    pub score: u64,
}

impl Default for CurrentLevelScoreResource {
    fn default() -> (r: Self)
        ensures
            r.score == 0,
    {
        CurrentLevelScoreResource { score: 0 }
    }
}

/// The stored best score for `key`: the score of the first entry carrying
/// the key, if any.
pub open spec fn lookup(s: Seq<(LevelKey, u64)>, key: LevelKey) -> Option<u64>
    decreases s.len(),
{
    if s.len() == 0 {
        None
    } else if s[0].0 == key {
        Some(s[0].1)
    } else {
        lookup(s.subrange(1, s.len() as int), key)
    }
}

pub proof fn lemma_lookup_found(s: Seq<(LevelKey, u64)>, key: LevelKey, p: int)
    requires
        0 <= p < s.len(),
        s[p].0 == key,
        forall|q: int| 0 <= q < p ==> s[q].0 != key,
    ensures
        lookup(s, key) == Some(s[p].1),
    decreases p,
{
    if p > 0 {
        let tail = s.subrange(1, s.len() as int);
        lemma_lookup_found(tail, key, p - 1);
    }
}

pub proof fn lemma_lookup_absent(s: Seq<(LevelKey, u64)>, key: LevelKey)
    requires
        forall|q: int| 0 <= q < s.len() ==> s[q].0 != key,
    ensures
        lookup(s, key) is None,
    decreases s.len(),
{
    if s.len() > 0 {
        lemma_lookup_absent(s.subrange(1, s.len() as int), key);
    }
}

/// Replacing the entry at `p`, whose key stays the same, leaves the stored
/// score of every other key alone.
pub proof fn lemma_lookup_update_other(
    s: Seq<(LevelKey, u64)>,
    p: int,
    e: (LevelKey, u64),
    k2: LevelKey,
)
    requires
        0 <= p < s.len(),
        s[p].0 == e.0,
        k2 != e.0,
    ensures
        lookup(s.update(p, e), k2) == lookup(s, k2),
    decreases p,
{
    let s2 = s.update(p, e);
    if p == 0 {
        assert(s2.subrange(1, s2.len() as int) =~= s.subrange(1, s.len() as int));
    } else {
        assert(s2[0] == s[0]);
        assert(s2.subrange(1, s2.len() as int) =~= s.subrange(1, s.len() as int).update(
            p - 1,
            e,
        ));
        lemma_lookup_update_other(s.subrange(1, s.len() as int), p - 1, e, k2);
    }
}

/// Appending an entry changes only the stored score of a key that had no
/// entry before.
pub proof fn lemma_lookup_push(s: Seq<(LevelKey, u64)>, e: (LevelKey, u64), k2: LevelKey)
    ensures
        lookup(s.push(e), k2) == (if lookup(s, k2) is Some {
            lookup(s, k2)
        } else if e.0 == k2 {
            Some(e.1)
        } else {
            None::<u64>
        }),
    decreases s.len(),
{
    if s.len() == 0 {
        assert(s.push(e)[0] == e);
        assert(lookup(s, k2) is None);
        assert(s.push(e).subrange(1, 1) =~= Seq::<(LevelKey, u64)>::empty());
        if e.0 == k2 {
            assert(lookup(s.push(e), k2) == Some(e.1));
        } else {
            assert(lookup(s.push(e), k2) == lookup(s.push(e).subrange(1, 1), k2));
            assert(lookup(s.push(e), k2) is None);
        }
    } else {
        assert(s.push(e)[0] == s[0]);
        assert(s.push(e).subrange(1, s.len() as int + 1) =~= s.subrange(1, s.len() as int).push(
            e,
        ));
        lemma_lookup_push(s.subrange(1, s.len() as int), e, k2);
    }
}

/// The persisted table of best scores, one entry per level key.
pub struct HighScoresResource {
    pub high_scores: Vec<(LevelKey, u64)>,
}

impl HighScoresResource {
    /// No key has two entries.
    pub open spec fn wf(self) -> bool {
        forall|j: int, k: int|
            0 <= j < k < self.high_scores@.len() ==> (#[trigger] self.high_scores@[j]).0 != (
            #[trigger] self.high_scores@[k]).0
    }

    /// The best score stored for `key`, or 0 when none is stored.
    pub open spec fn score_spec(self, key: LevelKey) -> u64 {
        match lookup(self.high_scores@, key) {
            Some(v) => v,
            None => 0,
        }
    }

    pub fn get_score(&self, key: LevelKey) -> (r: u64)
        ensures
            r == self.score_spec(key),
    {
        let mut j: usize = 0;
        while j < self.high_scores.len()
            invariant
                j <= self.high_scores@.len(),
                forall|q: int| 0 <= q < j ==> self.high_scores@[q].0 != key,
            decreases self.high_scores@.len() - j,
        {
            let entry = self.high_scores[j];
            if entry.0 == key {
                proof {
                    lemma_lookup_found(self.high_scores@, key, j as int);
                }
                return entry.1;
            }
            j += 1;
        }
        proof {
            lemma_lookup_absent(self.high_scores@, key);
        }
        0
    }
}

impl Default for HighScoresResource {
    fn default() -> (r: Self)
        ensures
            r.high_scores@.len() == 0,
            r.wf(),
    {
        HighScoresResource { high_scores: Vec::new() }
    }
}

/// Updates the stored best for `key` only if the level's score beats it,
/// and says whether it did (in which case the caller persists the table).
/// Every other key's stored best is untouched.
pub fn update_high_score_if_greater(
    scores: &mut HighScoresResource,
    key: LevelKey,
    new_score: u64,
) -> (persisted: bool)
    requires
        old(scores).wf(),
    ensures
        final(scores).wf(),
        persisted == (new_score > old(scores).score_spec(key)),
        persisted ==> final(scores).score_spec(key) == new_score,
        persisted ==> forall|k2: LevelKey|
            k2 != key ==> final(scores).score_spec(k2) == old(scores).score_spec(k2),
        !persisted ==> *final(scores) == *old(scores),
{
    let past_score = scores.get_score(key);
    if new_score > past_score {
        let ghost w0 = *scores;
        let ghost s0 = scores.high_scores@;
        let mut j: usize = 0;
        while j < scores.high_scores.len()
            invariant
                j <= scores.high_scores@.len(),
                scores.high_scores@ == s0,
                w0.wf(),
                w0.high_scores@ == s0,
                w0 == *old(scores),
                new_score > w0.score_spec(key),
                forall|q: int| 0 <= q < j ==> s0[q].0 != key,
            decreases scores.high_scores@.len() - j,
        {
            let entry = scores.high_scores[j];
            if entry.0 == key {
                scores.high_scores[j] = (key, new_score);
                proof {
                    let s2 = scores.high_scores@;
                    assert(s2 == s0.update(j as int, (key, new_score)));
                    assert(s0[j as int].0 == key);
                    assert forall|a: int, b: int|
                        0 <= a < b < s2.len() implies (#[trigger] s2[a]).0 != (
                    #[trigger] s2[b]).0 by {
                        assert((w0.high_scores@[a]).0 != (w0.high_scores@[b]).0);
                        if a == j {
                            assert(s0[b].0 != key);
                        } else if b == j {
                            assert(s0[a].0 != key);
                        } else {
                            assert(s2[a] == s0[a] && s2[b] == s0[b]);
                        }
                    }
                    lemma_lookup_found(s2, key, j as int);
                    assert forall|k2: LevelKey| k2 != key implies lookup(s2, k2) == lookup(
                        s0,
                        k2,
                    ) by {
                        lemma_lookup_update_other(s0, j as int, (key, new_score), k2);
                    }
                }
                return true;
            }
            j += 1;
        }
        scores.high_scores.push((key, new_score));
        proof {
            let s2 = scores.high_scores@;
            assert(s2 == s0.push((key, new_score)));
            lemma_lookup_absent(s0, key);
            assert forall|a: int, b: int|
                0 <= a < b < s2.len() implies (#[trigger] s2[a]).0 != (#[trigger] s2[b]).0 by {
                if b == s2.len() - 1 {
                    assert(s2[a] == s0[a]);
                    assert(s2[b].0 == key);
                }
            }
            assert forall|k2: LevelKey| true implies lookup(s2, k2) == (if lookup(s0, k2) is Some {
                lookup(s0, k2)
            } else if k2 == key {
                Some(new_score)
            } else {
                None::<u64>
            }) by {
                lemma_lookup_push(s0, (key, new_score), k2);
            }
        }
        true
    } else {
        false
    }
}

} // verus!
