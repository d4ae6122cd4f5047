//! Bookkeeping of recalls the bridge performs itself: when the bridge deletes
//! a bridged copy, the platform reports that deletion back, and the bridge
//! must not treat it as a new recall. Entries are keyed by platform and
//! message ID and stamped with the (monotonic) time they were made.

use vstd::prelude::*;

use crate::message::Platform;

verus! {

/// One suppressed recall.
pub struct SuppressedEntry {
    pub platform: Platform,
    pub msg_id: String,
    pub created_at: u64,
}

/// The key of an entry.
pub open spec fn entry_key(e: SuppressedEntry) -> (Platform, Seq<char>) {
    (e.platform, e.msg_id@)
}

/// The time stamp recorded for key `k` in `s` (the last entry with that key).
pub open spec fn lookup(s: Seq<SuppressedEntry>, k: (Platform, Seq<char>)) -> Option<u64>
    decreases s.len(),
{
    if s.len() == 0 {
        None
    } else if entry_key(s.last()) == k {
        Some(s.last().created_at)
    } else {
        lookup(s.drop_last(), k)
    }
}

/// No two entries share a key.
pub open spec fn distinct_keys(s: Seq<SuppressedEntry>) -> bool {
    forall|i: int, j: int|
        0 <= i < s.len() && 0 <= j < s.len() && i != j ==> entry_key(s[i]) != entry_key(s[j])
}

pub proof fn lemma_lookup(s: Seq<SuppressedEntry>, k: (Platform, Seq<char>))
    requires
        distinct_keys(s),
    ensures
        forall|i: int| 0 <= i < s.len() && entry_key(s[i]) == k ==> lookup(s, k) == Some(
            s[i].created_at,
        ),
        lookup(s, k) is None ==> forall|i: int| 0 <= i < s.len() ==> entry_key(s[i]) != k,
        lookup(s, k) is Some ==> exists|i: int|
            0 <= i < s.len() && entry_key(s[i]) == k && lookup(s, k) == Some(s[i].created_at),
    decreases s.len(),
{
    if s.len() > 0 {
        let t = s.drop_last();
        assert(distinct_keys(t)) by {
            assert forall|i: int, j: int|
                0 <= i < t.len() && 0 <= j < t.len() && i != j implies entry_key(t[i])
                != entry_key(t[j]) by {
                assert(t[i] == s[i] && t[j] == s[j]);
            }
        }
        lemma_lookup(t, k);
        if entry_key(s.last()) == k {
            assert(entry_key(s[s.len() - 1]) == k);
        } else if lookup(t, k) is Some {
            let j = choose|j: int|
                0 <= j < t.len() && entry_key(t[j]) == k && lookup(t, k) == Some(t[j].created_at);
            assert(s[j] == t[j]);
        }
        assert forall|i: int| 0 <= i < s.len() && entry_key(s[i]) == k implies lookup(s, k) == Some(
            s[i].created_at,
        ) by {
            if i < s.len() - 1 {
                assert(s[i] == t[i]);
                assert(entry_key(s.last()) != k);
            }
        }
    }
}

/// Elapsed time since `created_at` (zero if the clock reads earlier).
pub open spec fn age(created_at: u64, now: u64) -> nat {
    if now >= created_at {
        (now - created_at) as nat
    } else {
        0
    }
}

/// The suppressed recalls of one bridge.
pub struct SuppressedRecalls {
    entries: Vec<SuppressedEntry>,
}

impl View for SuppressedRecalls {
    type V = Map<(Platform, Seq<char>), u64>;

    closed spec fn view(&self) -> Map<(Platform, Seq<char>), u64> {
        Map::new(|k: (Platform, Seq<char>)| lookup(self.entries@, k) is Some, |k: (Platform, Seq<char>)| lookup(self.entries@, k)->0)
    }
}

impl SuppressedRecalls {
    #[verifier::type_invariant]
    spec fn inv(self) -> bool {
        distinct_keys(self.entries@)
    }

    /// No suppressed recalls.
    pub fn new() -> (r: Self)
        ensures
            r@ == Map::<(Platform, Seq<char>), u64>::empty(),
    {
        let r = SuppressedRecalls { entries: Vec::new() };
        assert(r@ =~= Map::<(Platform, Seq<char>), u64>::empty());
        r
    }

    /// Index of the entry with the given key.
    fn position(&self, platform: Platform, msg_id: &String) -> (r: Option<usize>)
        ensures
            r matches Some(i) ==> i < self.entries@.len() && entry_key(self.entries@[i as int])
                == (platform, msg_id@),
            r is None ==> forall|i: int|
                0 <= i < self.entries@.len() ==> entry_key(self.entries@[i]) != (
                    platform,
                    msg_id@,
                ),
    {
        let mut i: usize = 0;
        while i < self.entries.len()
            invariant
                i <= self.entries@.len(),
                forall|j: int| 0 <= j < i ==> entry_key(self.entries@[j]) != (platform, msg_id@),
            decreases self.entries@.len() - i,
        {
            let e = &self.entries[i];
            if e.platform == platform && e.msg_id == *msg_id {
                return Some(i);
            }
            i = i + 1;
        }
        None
    }

    /// Whether a recall of `msg_id` on `platform` is suppressed.
    pub fn contains(&self, platform: Platform, msg_id: &str) -> (r: bool)
        ensures
            r == self@.dom().contains((platform, msg_id@)),
    {
        proof {
            use_type_invariant(self);
            lemma_lookup(self.entries@, (platform, msg_id@));
        }
        let id = String::from_str(msg_id);
        self.position(platform, &id).is_some()
    }

    /// Marks the recall of `msg_id` on `platform` as the bridge's own, made at
    /// time `now`; an existing mark for the same message is replaced.
    pub fn suppress(&mut self, platform: Platform, msg_id: &str, now: u64)
        ensures
            final(self)@ == old(self)@.insert((platform, msg_id@), now),
    {
        proof {
            use_type_invariant(&*self);
        }
        let id = String::from_str(msg_id);
        let ghost k = (platform, msg_id@);
        let ghost s0 = self.entries@;
        let entry = SuppressedEntry { platform, msg_id: String::from_str(msg_id), created_at: now };
        let pos = self.position(platform, &id);
        let mut v: Vec<SuppressedEntry> = Vec::new();
        std::mem::swap(&mut v, &mut self.entries);
        match pos {
            Some(i) => {
                v.set(i, entry);
                proof {
                    let s1 = v@;
                    assert(distinct_keys(s1)) by {
                        assert forall|a: int, b: int|
                            0 <= a < s1.len() && 0 <= b < s1.len() && a != b implies entry_key(s1[a])
                            != entry_key(s1[b]) by {
                            if a != i && b != i {
                                assert(s1[a] == s0[a] && s1[b] == s0[b]);
                            } else if a == i {
                                assert(s1[b] == s0[b]);
                                assert(entry_key(s0[i as int]) == k);
                            } else {
                                assert(s1[a] == s0[a]);
                                assert(entry_key(s0[i as int]) == k);
                            }
                        }
                    }
                    assert forall|k2: (Platform, Seq<char>)| #![auto] lookup(s1, k2) == if k2 == k {
                        Some(now)
                    } else {
                        lookup(s0, k2)
                    } by {
                        lemma_lookup(s0, k2);
                        lemma_lookup(s1, k2);
                        if k2 != k {
                            if lookup(s0, k2) is Some {
                                let j = choose|j: int| 0 <= j < s0.len() && entry_key(s0[j]) == k2;
                                assert(s1[j] == s0[j]);
                            } else if lookup(s1, k2) is Some {
                                let j = choose|j: int| 0 <= j < s1.len() && entry_key(s1[j]) == k2;
                                assert(s1[j] == s0[j]);
                            }
                        } else {
                            assert(entry_key(s1[i as int]) == k);
                        }
                    }
                }
            },
            None => {
                v.push(entry);
                proof {
                    let s1 = v@;
                    assert(s1.drop_last() =~= s0);
                    assert(distinct_keys(s1)) by {
                        assert forall|a: int, b: int|
                            0 <= a < s1.len() && 0 <= b < s1.len() && a != b implies entry_key(s1[a])
                            != entry_key(s1[b]) by {
                            if a < s0.len() && b < s0.len() {
                                assert(s1[a] == s0[a] && s1[b] == s0[b]);
                            } else if a < s0.len() {
                                assert(s1[a] == s0[a]);
                            } else {
                                assert(s1[b] == s0[b]);
                            }
                        }
                    }
                }
            },
        }
        self.entries = v;
        assert(self@ =~= old(self)@.insert(k, now));
    }

    /// Removes the mark for `msg_id` on `platform`, reporting whether there
    /// was one.
    pub fn take(&mut self, platform: Platform, msg_id: &str) -> (r: bool)
        ensures
            r == old(self)@.dom().contains((platform, msg_id@)),
            final(self)@ == old(self)@.remove((platform, msg_id@)),
    {
        proof {
            use_type_invariant(&*self);
        }
        let id = String::from_str(msg_id);
        let ghost k = (platform, msg_id@);
        let ghost s0 = self.entries@;
        proof {
            lemma_lookup(s0, k);
        }
        match self.position(platform, &id) {
            Some(i) => {
                let mut v: Vec<SuppressedEntry> = Vec::new();
                std::mem::swap(&mut v, &mut self.entries);
                v.remove(i);
                proof {
                    let s1 = v@;
                    assert(s1 =~= s0.remove(i as int));
                    assert(distinct_keys(s1)) by {
                        assert forall|a: int, b: int|
                            0 <= a < s1.len() && 0 <= b < s1.len() && a != b implies entry_key(s1[a])
                            != entry_key(s1[b]) by {
                            let a0 = if a < i { a } else { a + 1 };
                            let b0 = if b < i { b } else { b + 1 };
                            assert(s1[a] == s0[a0] && s1[b] == s0[b0]);
                        }
                    }
                    assert forall|k2: (Platform, Seq<char>)| #![auto] lookup(s1, k2) == if k2 == k {
                        None
                    } else {
                        lookup(s0, k2)
                    } by {
                        lemma_lookup(s0, k2);
                        lemma_lookup(s1, k2);
                        if lookup(s0, k2) is Some {
                            let j = choose|j: int| 0 <= j < s0.len() && entry_key(s0[j]) == k2;
                            if k2 != k {
                                assert(j != i);
                                let j1 = if j < i { j } else { j - 1 };
                                assert(s1[j1] == s0[j]);
                            }
                        }
                        if lookup(s1, k2) is Some {
                            let j = choose|j: int| 0 <= j < s1.len() && entry_key(s1[j]) == k2;
                            let j0 = if j < i { j } else { j + 1 };
                            assert(s1[j] == s0[j0]);
                            if k2 == k {
                                assert(j0 != i);
                            }
                        }
                    }
                }
                self.entries = v;
                assert(self@ =~= old(self)@.remove(k));
                true
            },
            None => {
                assert(self@ =~= old(self)@.remove(k));
                false
            },
        }
    }

    /// Drops every mark older than `max_age` at time `now`.
    pub fn prune(&mut self, max_age: u64, now: u64)
        ensures
            forall|k: (Platform, Seq<char>)| #[trigger]
                final(self)@.dom().contains(k) <==> old(self)@.dom().contains(k) && age(
                    old(self)@[k],
                    now,
                ) <= max_age,
            forall|k: (Platform, Seq<char>)| #[trigger]
                final(self)@.dom().contains(k) ==> final(self)@[k] == old(self)@[k],
    {
        proof {
            use_type_invariant(&*self);
        }
        let ghost s0 = self.entries@;
        let mut kept: Vec<SuppressedEntry> = Vec::new();
        let ghost mut picked: Seq<int> = Seq::empty();
        let mut i: usize = 0;
        let n = self.entries.len();
        while i < n
            invariant
                n == self.entries@.len(),
                self.entries@ == s0,
                distinct_keys(s0),
                i <= n,
                picked.len() == kept@.len(),
                forall|a: int| 0 <= a < picked.len() ==> 0 <= #[trigger] picked[a] < i,
                forall|a: int, b: int| 0 <= a < b < picked.len() ==> picked[a] < picked[b],
                forall|a: int| 0 <= a < picked.len() ==> kept@[a] == s0[#[trigger] picked[a]],
                forall|j: int|
                    0 <= j < i && age(s0[j].created_at, now) <= max_age ==> exists|a: int|
                        0 <= a < picked.len() && #[trigger] picked[a] == j,
                forall|a: int|
                    0 <= a < picked.len() ==> age(s0[#[trigger] picked[a]].created_at, now)
                        <= max_age,
            decreases n - i,
        {
            let e = &self.entries[i];
            let ghost old_picked = picked;
            let fresh = now < e.created_at || now - e.created_at <= max_age;
            if fresh {
                let copy = SuppressedEntry {
                    platform: e.platform,
                    msg_id: e.msg_id.clone(),
                    created_at: e.created_at,
                };
                kept.push(copy);
                proof {
                    picked = picked.push(i as int);
                    assert(picked[picked.len() - 1] == i);
                }
            }
            proof {
                assert forall|j: int|
                    0 <= j < i + 1 && age(s0[j].created_at, now) <= max_age implies exists|a: int|
                    0 <= a < picked.len() && #[trigger] picked[a] == j by {
                    if j == i {
                        assert(picked[picked.len() - 1] == j);
                    } else {
                        let a = choose|a: int| 0 <= a < old_picked.len() && #[trigger] old_picked[a] == j;
                        assert(picked[a] == old_picked[a]);
                    }
                }
            }
            i = i + 1;
        }
        proof {
            let s1 = kept@;
            assert(distinct_keys(s1)) by {
                assert forall|a: int, b: int|
                    0 <= a < s1.len() && 0 <= b < s1.len() && a != b implies entry_key(s1[a])
                    != entry_key(s1[b]) by {
                    assert(s1[a] == s0[picked[a]]);
                    assert(s1[b] == s0[picked[b]]);
                    if a < b {
                        assert(picked[a] < picked[b]);
                    } else {
                        assert(picked[b] < picked[a]);
                    }
                }
            }
        }
        self.entries = kept;
        proof {
            let s1 = self.entries@;
            assert forall|k: (Platform, Seq<char>)| #![auto] lookup(s1, k) == if lookup(s0, k) matches Some(t) && age(t, now) <= max_age {
                lookup(s0, k)
            } else {
                None
            } by {
                lemma_lookup(s0, k);
                lemma_lookup(s1, k);
                if lookup(s0, k) is Some {
                    let j = choose|j: int| 0 <= j < s0.len() && entry_key(s0[j]) == k;
                    if age(s0[j].created_at, now) <= max_age {
                        let a = choose|a: int| 0 <= a < picked.len() && #[trigger] picked[a] == j;
                        assert(s1[a] == s0[j]);
                    }
                }
                if lookup(s1, k) is Some {
                    let a = choose|a: int| 0 <= a < s1.len() && entry_key(s1[a]) == k;
                    assert(s1[a] == s0[picked[a]]);
                }
            }
        }
    }
}

} // verus!
