//! A reference-counted cache with delayed eviction.
//!
//! One logical owner holds a map from keys to `(refcount, value)` pairs and
//! serially applies three kinds of events: `Get` hands out a clone of the
//! value (generating it on a miss), `Decr` releases one reference, and
//! `Expire` is the grace-period check that removes an entry only when its
//! refcount is still zero at that instant.  The event loop that feeds this
//! state from a channel, and the lease guards whose destruction submits
//! `Decr`, live outside the verified core; everything they may do to the map
//! goes through the functions here.

use vstd::prelude::*;
use vstd::pervasive::cloned;

verus! {

/// The mathematical cache state: each cached key carries its refcount and
/// the stored value.
pub type CacheMap<V> = Map<Seq<char>, (nat, V)>;

/// A request the owner of the cache state processes.
pub enum Event {
    /// Look a key up, generating the value on a miss; the caller expects a
    /// reply.
    Get(String),
    /// One outstanding reference to the key was released.
    Decr(String),
    /// A grace timer for the key fired; remove the entry if it is idle.
    Expire(String),
}

/// What processing one event asks of the surrounding event loop.
pub enum Effect<V> {
    /// Answer to a `Get`: a private clone of the value, or nothing when the
    /// generator reported absence.
    Reply(Option<V>),
    /// A refcount just reached zero: after this many milliseconds, submit
    /// `Expire` for this key.
    Schedule(String, u64),
    /// Nothing to do.
    Nothing,
}

/// A hit: the entry's refcount rises by one to cover the lease handed out.
pub open spec fn hit_step<V>(m: CacheMap<V>, k: Seq<char>) -> CacheMap<V>
    recommends
        m.dom().contains(k),
{
    m.insert(k, ((m[k].0 + 1) as nat, m[k].1))
}

/// A successful miss: the generated value is inserted with refcount one,
/// accounting for the lease about to be handed back.
pub open spec fn miss_step<V>(m: CacheMap<V>, k: Seq<char>, stored: V) -> CacheMap<V>
    recommends
        !m.dom().contains(k),
{
    m.insert(k, (1nat, stored))
}

/// A release: the refcount drops by one where the key is present and the
/// count is positive; otherwise nothing changes (a release may race with an
/// earlier removal).
pub open spec fn decr_step<V>(m: CacheMap<V>, k: Seq<char>) -> CacheMap<V> {
    if m.dom().contains(k) && m[k].0 > 0 {
        m.insert(k, ((m[k].0 - 1) as nat, m[k].1))
    } else {
        m
    }
}

/// The grace-period check: the entry goes away only if its refcount is zero
/// at this very instant; any other state is left untouched.
pub open spec fn expire_step<V>(m: CacheMap<V>, k: Seq<char>) -> CacheMap<V> {
    if m.dom().contains(k) && m[k].0 == 0 {
        m.remove(k)
    } else {
        m
    }
}

/// No two slots hold the same key.
pub open spec fn keys_distinct<V>(s: Seq<(String, usize, V)>) -> bool {
    forall|i: int, j: int| 0 <= i < j < s.len() ==> s[i].0@ != s[j].0@
}

/// Whether some slot holds key `k`.
pub open spec fn has_key<V>(s: Seq<(String, usize, V)>, k: Seq<char>) -> bool {
    exists|i: int| 0 <= i < s.len() && s[i].0@ == k
}

/// The slot holding key `k` (unique when keys are distinct).
pub open spec fn slot_of<V>(s: Seq<(String, usize, V)>, k: Seq<char>) -> int {
    choose|i: int| 0 <= i < s.len() && s[i].0@ == k
}

/// The map a slot sequence denotes.
pub open spec fn map_of<V>(s: Seq<(String, usize, V)>) -> CacheMap<V> {
    Map::new(
        |k: Seq<char>| has_key(s, k),
        |k: Seq<char>| (s[slot_of(s, k)].1 as nat, s[slot_of(s, k)].2),
    )
}

proof fn lemma_slot_at<V>(s: Seq<(String, usize, V)>, i: int)
    requires
        keys_distinct(s),
        0 <= i < s.len(),
    ensures
        has_key(s, s[i].0@),
        slot_of(s, s[i].0@) == i,
        map_of(s).dom().contains(s[i].0@),
        map_of(s)[s[i].0@] == (s[i].1 as nat, s[i].2),
{
    assert(has_key(s, s[i].0@));
    let j = slot_of(s, s[i].0@);
    assert(0 <= j < s.len() && s[j].0@ == s[i].0@);
    if i < j {
        assert(s[i].0@ != s[j].0@);
    } else if j < i {
        assert(s[j].0@ != s[i].0@);
    }
}

proof fn lemma_map_of_update<V>(s: Seq<(String, usize, V)>, i: int, e: (String, usize, V))
    requires
        keys_distinct(s),
        0 <= i < s.len(),
        e.0@ == s[i].0@,
    ensures
        keys_distinct(s.update(i, e)),
        map_of(s.update(i, e)) == map_of(s).insert(e.0@, (e.1 as nat, e.2)),
{
    let s2 = s.update(i, e);
    assert forall|p: int, q: int| 0 <= p < q < s2.len() implies s2[p].0@ != s2[q].0@ by {
        assert(s[p].0@ != s[q].0@);
    }
    assert forall|k: Seq<char>| has_key(s2, k) implies has_key(s, k) by {
        let j = choose|j: int| 0 <= j < s2.len() && s2[j].0@ == k;
        assert(s[j].0@ == k);
    }
    assert forall|k: Seq<char>| has_key(s, k) implies has_key(s2, k) by {
        let j = choose|j: int| 0 <= j < s.len() && s[j].0@ == k;
        assert(s2[j].0@ == k);
    }
    assert forall|k: Seq<char>| has_key(s2, k) implies map_of(s2)[k] == map_of(s).insert(
        e.0@,
        (e.1 as nat, e.2),
    )[k] by {
        let j2 = slot_of(s2, k);
        assert(0 <= j2 < s2.len() && s2[j2].0@ == k);
        lemma_slot_at(s2, j2);
        if j2 == i {
            assert(k == e.0@);
        } else {
            assert(s2[j2] == s[j2]);
            lemma_slot_at(s, j2);
            assert(k != e.0@) by {
                if k == e.0@ {
                    lemma_slot_at(s, i);
                }
            }
        }
    }
    assert(map_of(s2) =~= map_of(s).insert(e.0@, (e.1 as nat, e.2)));
}

proof fn lemma_map_of_push<V>(s: Seq<(String, usize, V)>, e: (String, usize, V))
    requires
        keys_distinct(s),
        !has_key(s, e.0@),
    ensures
        keys_distinct(s.push(e)),
        map_of(s.push(e)) == map_of(s).insert(e.0@, (e.1 as nat, e.2)),
{
    let s2 = s.push(e);
    assert forall|p: int, q: int| 0 <= p < q < s2.len() implies s2[p].0@ != s2[q].0@ by {
        if q < s.len() {
            assert(s[p].0@ != s[q].0@);
        } else {
            assert(s2[q] == e);
            assert(s2[p] == s[p]);
            if s[p].0@ == e.0@ {
                assert(has_key(s, e.0@));
            }
        }
    }
    assert forall|k: Seq<char>| has_key(s2, k) implies map_of(s2)[k] == map_of(s).insert(
        e.0@,
        (e.1 as nat, e.2),
    )[k] by {
        let j2 = slot_of(s2, k);
        assert(0 <= j2 < s2.len() && s2[j2].0@ == k);
        lemma_slot_at(s2, j2);
        if j2 == s.len() {
            assert(k == e.0@);
        } else {
            assert(s2[j2] == s[j2]);
            lemma_slot_at(s, j2);
            if k == e.0@ {
                assert(has_key(s, e.0@));
            }
        }
    }
    assert forall|k: Seq<char>| has_key(s, k) implies has_key(s2, k) by {
        let j = choose|j: int| 0 <= j < s.len() && s[j].0@ == k;
        assert(s2[j].0@ == k);
    }
    assert(has_key(s2, e.0@)) by {
        assert(s2[s.len() as int].0@ == e.0@);
    }
    assert(map_of(s2) =~= map_of(s).insert(e.0@, (e.1 as nat, e.2)));
}

proof fn lemma_map_of_remove<V>(s: Seq<(String, usize, V)>, i: int)
    requires
        keys_distinct(s),
        0 <= i < s.len(),
    ensures
        keys_distinct(s.remove(i)),
        map_of(s.remove(i)) == map_of(s).remove(s[i].0@),
{
    let s2 = s.remove(i);
    let k0 = s[i].0@;
    assert forall|p: int, q: int| 0 <= p < q < s2.len() implies s2[p].0@ != s2[q].0@ by {
        let p1: int = if p < i { p } else { p + 1 };
        let q1: int = if q < i { q } else { q + 1 };
        assert(s2[p] == s[p1]);
        assert(s2[q] == s[q1]);
        assert(s[p1].0@ != s[q1].0@);
    }
    assert forall|k: Seq<char>| has_key(s2, k) implies map_of(s2)[k] == map_of(s).remove(k0)[k]
        by {
        let j2 = slot_of(s2, k);
        assert(0 <= j2 < s2.len() && s2[j2].0@ == k);
        lemma_slot_at(s2, j2);
        let j1: int = if j2 < i { j2 } else { j2 + 1 };
        assert(s2[j2] == s[j1]);
        lemma_slot_at(s, j1);
        assert(k != k0) by {
            if k == k0 {
                lemma_slot_at(s, i);
            }
        }
    }
    assert forall|k: Seq<char>| has_key(s, k) && k != k0 implies has_key(s2, k) by {
        let j = choose|j: int| 0 <= j < s.len() && s[j].0@ == k;
        if j < i {
            assert(s2[j].0@ == k);
        } else {
            assert(j != i);
            assert(s2[j - 1].0@ == k);
        }
    }
    assert forall|k: Seq<char>| has_key(s2, k) implies has_key(s, k) && k != k0 by {
        let j2 = slot_of(s2, k);
        assert(0 <= j2 < s2.len() && s2[j2].0@ == k);
        let j1: int = if j2 < i { j2 } else { j2 + 1 };
        assert(s[j1].0@ == k);
        lemma_slot_at(s, j1);
        if k == k0 {
            lemma_slot_at(s, i);
        }
    }
    assert(map_of(s2) =~= map_of(s).remove(k0));
}

/// The cache state: the slot vector is the map, the generator produces
/// values for missing keys, and `ttd` is the grace period (in milliseconds)
/// an idle entry survives after its refcount reaches zero.
pub struct Cache<V, F> {
    inner: Vec<(String, usize, V)>,
    generator: F,
    /// Grace period in milliseconds ("time to die").
    pub ttd: u64,
}

impl<V, F> View for Cache<V, F> {
    type V = CacheMap<V>;

    closed spec fn view(&self) -> CacheMap<V> {
        map_of(self.inner@)
    }
}

impl<V: Clone, F: Fn(String) -> Option<V>> Cache<V, F> {
    /// The stored generator, for speaking about its contract.
    pub closed spec fn generator_of(&self) -> F {
        self.generator
    }

    /// The grace period, for speaking about it in contracts.
    pub closed spec fn ttd_of(&self) -> u64 {
        self.ttd
    }

    /// Well-formed: no key occupies two slots, and the generator accepts
    /// every key (the miss handler must be total).
    pub closed spec fn wf(&self) -> bool {
        &&& keys_distinct(self.inner@)
        &&& forall|k: String| call_requires(self.generator, (k,))
    }

    /// A fresh, empty cache around a total generator.
    pub fn new(generator: F, ttd: u64) -> (c: Cache<V, F>)
        requires
            forall|k: String| call_requires(generator, (k,)),
        ensures
            c.wf(),
            c@ == CacheMap::<V>::empty(),
            c.generator_of() == generator,
            c.ttd_of() == ttd,
    {
        let c = Cache { inner: Vec::new(), generator, ttd };
        proof {
            assert forall|k: Seq<char>| !has_key(c.inner@, k) by {}
            assert(c@ =~= CacheMap::<V>::empty());
        }
        c
    }

    /// The slot holding `key`, if any.
    fn find(&self, key: &String) -> (r: Option<usize>)
        requires
            self.wf(),
        ensures
            match r {
                Some(i) => i < self.inner@.len() && self.inner@[i as int].0@ == key@,
                None => !self@.dom().contains(key@),
            },
    {
        let mut i: usize = 0;
        while i < self.inner.len()
            invariant
                i <= self.inner@.len(),
                forall|j: int| 0 <= j < i ==> self.inner@[j].0@ != key@,
            decreases self.inner@.len() - i,
        {
            let e = &self.inner[i];
            if e.0 == *key {
                return Some(i);
            }
            i += 1;
        }
        proof {
            assert(!has_key(self.inner@, key@));
        }
        None
    }

    /// Whether `key` is currently cached (refcount zero or not).
    pub fn contains_key(&self, key: &String) -> (r: bool)
        requires
            self.wf(),
        ensures
            r == self@.dom().contains(key@),
    {
        let r = self.find(key);
        proof {
            if self@.dom().contains(key@) {
                assert(has_key(self.inner@, key@));
            }
            match r {
                Some(i) => {
                    lemma_slot_at(self.inner@, i as int);
                }
                None => {}
            }
        }
        r.is_some()
    }

    /// The refcount the cache holds for `key`, if the key is cached.
    pub fn refcount(&self, key: &String) -> (r: Option<usize>)
        requires
            self.wf(),
        ensures
            match r {
                Some(n) => self@.dom().contains(key@) && self@[key@].0 == n,
                None => !self@.dom().contains(key@),
            },
    {
        match self.find(key) {
            Some(i) => {
                proof {
                    lemma_slot_at(self.inner@, i as int);
                }
                Some(self.inner[i].1)
            }
            None => None,
        }
    }

    /// What a completed `get` guarantees: on a hit the refcount rose by one
    /// and the caller got a clone of the stored value; on a miss the
    /// generator decided — absence leaves the map untouched, success stores
    /// a clone of the generated value with refcount one and returns the
    /// value itself.
    pub open spec fn get_post(pre: Self, post: Self, key: String, r: Option<V>) -> bool {
        &&& post.generator_of() == pre.generator_of()
        &&& post.ttd_of() == pre.ttd_of()
        &&& if pre@.dom().contains(key@) {
            &&& post@ == hit_step(pre@, key@)
            &&& match r {
                Some(v) => cloned(pre@[key@].1, v),
                None => false,
            }
        } else {
            match r {
                Some(v) => {
                    &&& call_ensures(pre.generator_of(), (key,), Some(v))
                    &&& exists|s: V| #[trigger] cloned(v, s) && post@ == miss_step(pre@, key@, s)
                },
                None => {
                    &&& call_ensures(pre.generator_of(), (key,), None::<V>)
                    &&& post@ == pre@
                },
            }
        }
    }

    /// Serve one request for `k`: clone-and-increment on a hit, or consult
    /// the generator on a miss and cache a successful answer with refcount
    /// one.  The generator runs at most once, and only when `k` was absent.
    pub fn get(&mut self, k: String) -> (r: Option<V>)
        requires
            old(self).wf(),
            old(self)@.dom().contains(k@) ==> old(self)@[k@].0 < usize::MAX,
        ensures
            final(self).wf(),
            Self::get_post(*old(self), *final(self), k, r),
    {
        match self.find(&k) {
            Some(i) => {
                proof {
                    lemma_slot_at(self.inner@, i as int);
                }
                let e = &self.inner[i];
                let v = e.2.clone();
                proof {
                    assert(cloned(self.inner@[i as int].2, v));
                    assert(old(self)@[k@].1 == self.inner@[i as int].2);
                }
                self.incr(k);
                Some(v)
            }
            None => {
                match (self.generator)(k.clone()) {
                    Some(v) => {
                        let stored = v.clone();
                        proof {
                            assert(cloned(v, stored));
                            lemma_map_of_push(self.inner@, (k, 1usize, stored));
                        }
                        self.inner.push((k, 1, stored));
                        Some(v)
                    }
                    None => None,
                }
            }
        }
    }

    /// Raise the refcount of a cached key by one; keys not cached are left
    /// alone.
    pub fn incr(&mut self, k: String)
        requires
            old(self).wf(),
            old(self)@.dom().contains(k@) ==> old(self)@[k@].0 < usize::MAX,
        ensures
            final(self).wf(),
            final(self).generator_of() == old(self).generator_of(),
            final(self).ttd_of() == old(self).ttd_of(),
            old(self)@.dom().contains(k@) ==> final(self)@ == hit_step(old(self)@, k@),
            !old(self)@.dom().contains(k@) ==> final(self)@ == old(self)@,
    {
        match self.find(&k) {
            Some(i) => {
                proof {
                    lemma_slot_at(self.inner@, i as int);
                }
                let rc = self.inner[i].1;
                self.set_count(i, rc + 1);
            }
            None => {}
        }
    }

    /// Replace the refcount in slot `i`, leaving key and value in place.
    fn set_count(&mut self, i: usize, rc: usize)
        requires
            old(self).wf(),
            i < old(self).inner@.len(),
        ensures
            final(self).wf(),
            final(self).generator_of() == old(self).generator_of(),
            final(self).ttd_of() == old(self).ttd_of(),
            final(self)@ == old(self)@.insert(
                old(self).inner@[i as int].0@,
                (rc as nat, old(self).inner@[i as int].2),
            ),
    {
        let e = &mut self.inner[i];
        e.1 = rc;
        proof {
            let s0 = old(self).inner@;
            let e2 = self.inner@[i as int];
            assert(self.inner@ =~= s0.update(i as int, e2));
            assert(e2.0@ == s0[i as int].0@ && e2.2 == s0[i as int].2 && e2.1 == rc);
            lemma_map_of_update(s0, i as int, e2);
        }
    }

    /// Release one reference to `k`.  Returns whether the refcount just
    /// reached zero — the signal to schedule a grace-period `Expire` check.
    /// A key that is absent (already expired) or already at zero is left
    /// alone.
    pub fn decr(&mut self, k: String) -> (r: bool)
        requires
            old(self).wf(),
        ensures
            final(self).wf(),
            final(self).generator_of() == old(self).generator_of(),
            final(self).ttd_of() == old(self).ttd_of(),
            final(self)@ == decr_step(old(self)@, k@),
            r == (old(self)@.dom().contains(k@) && old(self)@[k@].0 == 1),
    {
        match self.find(&k) {
            Some(i) => {
                proof {
                    lemma_slot_at(self.inner@, i as int);
                }
                let rc = self.inner[i].1;
                if rc > 0 {
                    self.set_count(i, rc - 1);
                    proof {
                        assert(final(self)@ =~= decr_step(old(self)@, k@));
                    }
                    rc == 1
                } else {
                    proof {
                        assert(final(self)@ =~= decr_step(old(self)@, k@));
                    }
                    false
                }
            }
            None => {
                proof {
                    assert(final(self)@ =~= decr_step(old(self)@, k@));
                }
                false
            }
        }
    }

    /// The grace-period check: remove `k` only if it is cached with
    /// refcount zero right now.  A key revived since the timer was set, or
    /// already gone, is left untouched.
    pub fn expire(&mut self, k: String)
        requires
            old(self).wf(),
        ensures
            final(self).wf(),
            final(self).generator_of() == old(self).generator_of(),
            final(self).ttd_of() == old(self).ttd_of(),
            final(self)@ == expire_step(old(self)@, k@),
    {
        match self.find(&k) {
            Some(i) => {
                proof {
                    lemma_slot_at(self.inner@, i as int);
                }
                if self.inner[i].1 == 0 {
                    proof {
                        lemma_map_of_remove(self.inner@, i as int);
                    }
                    self.inner.remove(i);
                    proof {
                        assert(final(self)@ =~= expire_step(old(self)@, k@));
                    }
                } else {
                    proof {
                        assert(final(self)@ =~= expire_step(old(self)@, k@));
                    }
                }
            }
            None => {
                proof {
                    assert(final(self)@ =~= expire_step(old(self)@, k@));
                }
            }
        }
    }

    /// Process one event, as the owning event loop would: serve a `Get`,
    /// book a release and ask for a grace timer when the count hits zero,
    /// or run the expiry check.
    pub fn handle(&mut self, ev: Event) -> (eff: Effect<V>)
        requires
            old(self).wf(),
            match ev {
                Event::Get(k) => old(self)@.dom().contains(k@) ==> old(self)@[k@].0
                    < usize::MAX,
                _ => true,
            },
        ensures
            final(self).wf(),
            final(self).generator_of() == old(self).generator_of(),
            final(self).ttd_of() == old(self).ttd_of(),
            match ev {
                Event::Get(k) => eff matches Effect::Reply(r) && Self::get_post(
                    *old(self),
                    *final(self),
                    k,
                    r,
                ),
                Event::Decr(k) => {
                    &&& final(self)@ == decr_step(old(self)@, k@)
                    &&& if old(self)@.dom().contains(k@) && old(self)@[k@].0 == 1 {
                        eff matches Effect::Schedule(k2, d) && k2@ == k@ && d == old(self).ttd_of()
                    } else {
                        eff matches Effect::Nothing
                    }
                },
                Event::Expire(k) => {
                    &&& final(self)@ == expire_step(old(self)@, k@)
                    &&& eff matches Effect::Nothing
                },
            },
    {
        match ev {
            Event::Get(k) => {
                let r = self.get(k);
                Effect::Reply(r)
            }
            Event::Decr(k) => {
                let k2 = k.clone();
                if self.decr(k) {
                    let d = self.ttd;
                    Effect::Schedule(k2, d)
                } else {
                    Effect::Nothing
                }
            }
            Event::Expire(k) => {
                self.expire(k);
                Effect::Nothing
            }
        }
    }
}

/// While at least one lease for a key is alive its refcount is positive, and
/// the expiry check then leaves the whole map unchanged: no concurrent
/// `Expire` can remove a leased entry.
pub proof fn lemma_expire_spares_leased_entry<V>(m: CacheMap<V>, k: Seq<char>)
    requires
        m.dom().contains(k),
        m[k].0 > 0,
    ensures
        expire_step(m, k) == m,
{
}

/// Once the last lease is gone and the refcount sits at zero, the
/// grace-period check that fires next removes the entry.
pub proof fn lemma_expire_removes_idle_entry<V>(m: CacheMap<V>, k: Seq<char>)
    requires
        m.dom().contains(k),
        m[k].0 == 0,
    ensures
        expire_step(m, k) == m.remove(k),
        !expire_step(m, k).dom().contains(k),
{
}

/// A hit between the count reaching zero and the grace timer firing revives
/// the entry: the stale `Expire` check afterwards changes nothing.
pub proof fn lemma_reacquired_entry_survives_expiry<V>(m: CacheMap<V>, k: Seq<char>)
    requires
        m.dom().contains(k),
    ensures
        expire_step(hit_step(m, k), k) == hit_step(m, k),
{
    assert(hit_step(m, k).dom().contains(k));
    assert(hit_step(m, k)[k].0 == m[k].0 + 1);
}

/// Each release undoes exactly one acquisition: a hit followed by the one
/// `Decr` its lease emits restores the map.
pub proof fn lemma_decr_undoes_hit<V>(m: CacheMap<V>, k: Seq<char>)
    requires
        m.dom().contains(k),
    ensures
        decr_step(hit_step(m, k), k) == m,
{
    assert(decr_step(hit_step(m, k), k) =~= m);
}

/// Stale grace timers are individually harmless: a second expiry check for
/// the same key right after a first one changes nothing, whatever the
/// state.
pub proof fn lemma_expire_idempotent<V>(m: CacheMap<V>, k: Seq<char>)
    ensures
        expire_step(expire_step(m, k), k) == expire_step(m, k),
{
}

/// A generated entry that is taken once and released once is removed by the
/// grace-period check, leaving the map as it was before the miss.
pub proof fn lemma_single_use_entry_expires<V>(m: CacheMap<V>, k: Seq<char>, stored: V)
    requires
        !m.dom().contains(k),
    ensures
        expire_step(decr_step(miss_step(m, k, stored), k), k) == m,
{
    assert(expire_step(decr_step(miss_step(m, k, stored), k), k) =~= m);
}


/// One serialized operation of the cache protocol, at the level of the
/// map: a `Take` is a get that returned a value (storing `stored` if it
/// was a miss), a `Release` is the one notice a lease guard emits when it
/// is dropped, and a `Check` is a grace timer firing.  A get the generator
/// answered with absence leaves the map unchanged and has no place here.
pub enum Op<V> {
    Take(Seq<char>, V),
    Release(Seq<char>),
    Check(Seq<char>),
}

/// A serialized history of operations, oldest first.
pub type History<V> = Seq<Op<V>>;

/// The key an operation concerns.
pub open spec fn key_of<V>(op: Op<V>) -> Seq<char> {
    match op {
        Op::Take(k, _) => k,
        Op::Release(k) => k,
        Op::Check(k) => k,
    }
}

/// What one operation does to the map.
pub open spec fn apply_op<V>(m: CacheMap<V>, op: Op<V>) -> CacheMap<V> {
    match op {
        Op::Take(k, v) => if m.dom().contains(k) {
            hit_step(m, k)
        } else {
            miss_step(m, k, v)
        },
        Op::Release(k) => decr_step(m, k),
        Op::Check(k) => expire_step(m, k),
    }
}

/// The map a history of operations leaves behind.
pub open spec fn run<V>(m: CacheMap<V>, ops: History<V>) -> CacheMap<V>
    decreases ops.len(),
{
    if ops.len() == 0 {
        m
    } else {
        apply_op(run(m, ops.drop_last()), ops.last())
    }
}

/// How many leases of `k` a history hands out.
pub open spec fn takes<V>(ops: History<V>, k: Seq<char>) -> nat
    decreases ops.len(),
{
    if ops.len() == 0 {
        0nat
    } else {
        let n = takes(ops.drop_last(), k);
        match ops.last() {
            Op::Take(k2, _) => if k2 == k {
                n + 1
            } else {
                n
            },
            _ => n,
        }
    }
}

/// How many leases of `k` a history releases.
pub open spec fn releases<V>(ops: History<V>, k: Seq<char>) -> nat
    decreases ops.len(),
{
    if ops.len() == 0 {
        0nat
    } else {
        let n = releases(ops.drop_last(), k);
        match ops.last() {
            Op::Release(k2) => if k2 == k {
                n + 1
            } else {
                n
            },
            _ => n,
        }
    }
}

/// A history is balanced for `k` when no prefix releases more leases of
/// `k` than it took out: every release notice comes from a guard that was
/// handed out earlier, and each guard emits exactly one.
pub open spec fn balanced<V>(ops: History<V>, k: Seq<char>) -> bool {
    forall|n: int| 0 <= n <= ops.len()
        ==> releases(#[trigger] ops.subrange(0, n), k) <= takes(ops.subrange(0, n), k)
}

proof fn lemma_balanced_prefix<V>(ops: History<V>, k: Seq<char>)
    requires
        balanced(ops, k),
        ops.len() > 0,
    ensures
        balanced(ops.drop_last(), k),
{
    let p = ops.drop_last();
    assert forall|n: int| 0 <= n <= p.len() implies releases(#[trigger] p.subrange(0, n), k)
        <= takes(p.subrange(0, n), k) by {
        assert(p.subrange(0, n) =~= ops.subrange(0, n));
        assert(releases(ops.subrange(0, n), k) <= takes(ops.subrange(0, n), k));
    }
}

proof fn lemma_apply_op_other_key<V>(m: CacheMap<V>, op: Op<V>, k: Seq<char>)
    requires
        key_of(op) != k,
    ensures
        apply_op(m, op).dom().contains(k) == m.dom().contains(k),
        m.dom().contains(k) ==> apply_op(m, op)[k] == m[k],
{
}

/// What the data-model invariant says of a history for one key: after
/// running it from an empty cache, the key's refcount equals the number of
/// its outstanding leases — while a lease is alive the entry is present
/// with a positive count, and once the last lease is gone the entry is
/// absent or sits at refcount zero, awaiting its check.
pub open spec fn leases_accounted<V>(ops: History<V>, k: Seq<char>) -> bool {
    let m = run(CacheMap::<V>::empty(), ops);
    let t = takes(ops, k) as int;
    let r = releases(ops, k) as int;
    &&& t > r ==> m.dom().contains(k) && m[k].0 == t - r
    &&& t == r ==> !m.dom().contains(k) || m[k].0 == 0
}

/// The data-model invariant holds of every serialized history in which
/// each lease guard releases at most what was handed out: the refcount of
/// a key is exactly the number of its outstanding leases, so no `Check`
/// anywhere in the history removed a leased entry.
pub proof fn lemma_refcount_tracks_outstanding_leases<V>(ops: History<V>, k: Seq<char>)
    requires
        balanced(ops, k),
    ensures
        leases_accounted(ops, k),
    decreases ops.len(),
{
    if ops.len() == 0 {
        assert(!CacheMap::<V>::empty().dom().contains(k));
    } else {
        let p = ops.drop_last();
        let op = ops.last();
        lemma_balanced_prefix(ops, k);
        lemma_refcount_tracks_outstanding_leases::<V>(p, k);
        let m0 = run(CacheMap::<V>::empty(), p);
        let before: int = takes(p, k) as int - releases(p, k) as int;
        if key_of(op) != k {
            lemma_apply_op_other_key(m0, op, k);
        } else {
            match op {
                Op::Take(_, _) => {},
                Op::Release(_) => {
                    assert(ops.subrange(0, ops.len() as int) =~= ops);
                    assert(releases(ops, k) <= takes(ops, k));
                    assert(before >= 1);
                },
                Op::Check(_) => {},
            }
        }
    }
}

} // verus!
