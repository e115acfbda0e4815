//! The saved profiles: a collection keyed by profile identifier, with the
//! create / read / update / delete operations and the name-ordered listing.
use vstd::prelude::*;
use vstd::multiset::Multiset;

use crate::config::profile::{Profile, ProfileView};
use crate::error::Error;
use crate::text::{chars_of, eq_chars, owned};

verus! {

broadcast use vstd::seq_lib::group_to_multiset_ensures;

// ---------------------------------------------------------------------------
// Ordering of names
// ---------------------------------------------------------------------------

/// Lexicographic order of texts by character value (the order of `String`).
pub open spec fn text_le(a: Seq<char>, b: Seq<char>) -> bool
    decreases a.len(),
{
    if a.len() == 0 {
        true
    } else if b.len() == 0 {
        false
    } else if a[0] != b[0] {
        a[0] < b[0]
    } else {
        text_le(a.drop_first(), b.drop_first())
    }
}

/// Any two texts are ordered one way or the other.
pub proof fn lemma_text_le_total(a: Seq<char>, b: Seq<char>)
    ensures
        text_le(a, b) || text_le(b, a),
    decreases a.len(),
{
    if a.len() > 0 && b.len() > 0 && a[0] == b[0] {
        lemma_text_le_total(a.drop_first(), b.drop_first());
    }
}

/// Every text orders at or before itself.
pub proof fn lemma_text_le_refl(a: Seq<char>)
    ensures
        text_le(a, a),
    decreases a.len(),
{
    if a.len() > 0 {
        lemma_text_le_refl(a.drop_first());
    }
}

/// The order is transitive.
pub proof fn lemma_text_le_trans(a: Seq<char>, b: Seq<char>, c: Seq<char>)
    requires
        text_le(a, b),
        text_le(b, c),
    ensures
        text_le(a, c),
    decreases a.len(),
{
    if a.len() > 0 && b.len() > 0 && c.len() > 0 && a[0] == b[0] && b[0] == c[0] {
        lemma_text_le_trans(a.drop_first(), b.drop_first(), c.drop_first());
    }
}

/// Two texts each ordered at or before the other are equal.
pub proof fn lemma_text_le_antisym(a: Seq<char>, b: Seq<char>)
    requires
        text_le(a, b),
        text_le(b, a),
    ensures
        a == b,
    decreases a.len(),
{
    if a.len() > 0 && b.len() > 0 {
        lemma_text_le_antisym(a.drop_first(), b.drop_first());
        assert(a =~= seq![a[0]] + a.drop_first());
        assert(b =~= seq![b[0]] + b.drop_first());
    }
}

/// Whether `a` orders at or before `b`.
pub fn text_le_exec(a: &[char], b: &[char]) -> (r: bool)
    ensures
        r == text_le(a@, b@),
{
    let mut i: usize = 0;
    assert(a@.skip(0) =~= a@);
    assert(b@.skip(0) =~= b@);
    while i < a.len()
        invariant
            i <= a@.len(),
            i <= b@.len(),
            a@.subrange(0, i as int) == b@.subrange(0, i as int),
            text_le(a@, b@) == text_le(a@.skip(i as int), b@.skip(i as int)),
        decreases a@.len() - i,
    {
        let ghost asub = a@.skip(i as int);
        let ghost bsub = b@.skip(i as int);
        if i >= b.len() {
            return false;
        }
        if a[i] != b[i] {
            return a[i] < b[i];
        }
        assert(asub.drop_first() =~= a@.skip(i + 1));
        assert(bsub.drop_first() =~= b@.skip(i + 1));
        assert(a@.subrange(0, i + 1) =~= a@.subrange(0, i as int).push(a@[i as int]));
        assert(b@.subrange(0, i + 1) =~= b@.subrange(0, i as int).push(b@[i as int]));
        i = i + 1;
    }
    true
}

/// Profiles in order of their names.
pub open spec fn sorted_by_name(ps: Seq<ProfileView>) -> bool {
    forall|i: int, j: int| 0 <= i < j < ps.len() ==> text_le(#[trigger] ps[i].name, #[trigger] ps[j].name)
}

// ---------------------------------------------------------------------------
// The store
// ---------------------------------------------------------------------------

/// The map from keys to profiles that a list of entries stands for; a later
/// entry for a key replaces an earlier one.
pub open spec fn entries_map(es: Seq<(Seq<char>, ProfileView)>) -> Map<Seq<char>, ProfileView>
    decreases es.len(),
{
    if es.len() == 0 {
        Map::empty()
    } else {
        entries_map(es.drop_last()).insert(es.last().0, es.last().1)
    }
}

/// No key occurs twice.
pub open spec fn keys_unique(es: Seq<(Seq<char>, ProfileView)>) -> bool {
    forall|i: int, j: int| 0 <= i < j < es.len() ==> (#[trigger] es[i]).0 != (#[trigger] es[j]).0
}

/// The values of a list of entries, in order.
pub open spec fn entry_values(es: Seq<(Seq<char>, ProfileView)>) -> Seq<ProfileView> {
    es.map_values(|e: (Seq<char>, ProfileView)| e.1)
}

/// Saved profiles, keyed by identifier (the contents of `profiles.json`).
pub struct ProfileStore {
    entries: Vec<(String, Profile)>,
}

/// The view of one stored entry.
pub open spec fn entry_view(e: (String, Profile)) -> (Seq<char>, ProfileView) {
    (e.0@, e.1@)
}

impl ProfileStore {
    /// Well-formed: no key occurs twice among the entries. Every store is.
    #[verifier::type_invariant]
    pub closed spec fn wf(&self) -> bool {
        keys_unique(self.entries_view())
    }

    /// The stored entries, each key with its profile, in storage order.
    pub closed spec fn entries_view(&self) -> Seq<(Seq<char>, ProfileView)> {
        self.entries@.map_values(|e: (String, Profile)| entry_view(e))
    }
}

impl View for ProfileStore {
    type V = Map<Seq<char>, ProfileView>;

    open spec fn view(&self) -> Map<Seq<char>, ProfileView> {
        entries_map(self.entries_view())
    }
}

proof fn lemma_entries_map_get(es: Seq<(Seq<char>, ProfileView)>, k: Seq<char>)
    requires
        keys_unique(es),
    ensures
        entries_map(es).contains_key(k) <==> exists|i: int| 0 <= i < es.len() && (#[trigger] es[i]).0 == k,
        forall|i: int| 0 <= i < es.len() && (#[trigger] es[i]).0 == k ==> entries_map(es)[k] == es[i].1,
    decreases es.len(),
{
    if es.len() > 0 {
        let p = es.drop_last();
        assert(keys_unique(p)) by {
            assert forall|i: int, j: int| 0 <= i < j < p.len() implies (#[trigger] p[i]).0 != (
            #[trigger] p[j]).0 by {
                assert(p[i] == es[i] && p[j] == es[j]);
            }
        }
        lemma_entries_map_get(p, k);
        if entries_map(es).contains_key(k) && es.last().0 != k {
            let i = choose|i: int| 0 <= i < p.len() && (#[trigger] p[i]).0 == k;
            assert(es[i] == p[i]);
        }
        assert forall|i: int| 0 <= i < es.len() && (#[trigger] es[i]).0 == k implies entries_map(
            es,
        )[k] == es[i].1 by {
            if i < es.len() - 1 {
                assert(p[i] == es[i]);
                assert(es[es.len() - 1].0 != es[i].0);
            }
        }
        if exists|i: int| 0 <= i < es.len() && (#[trigger] es[i]).0 == k {
            let i = choose|i: int| 0 <= i < es.len() && (#[trigger] es[i]).0 == k;
            if i < es.len() - 1 {
                assert(p[i] == es[i]);
            }
        }
    }
}

/// The entries of a store have distinct keys, and its map holds exactly their
/// keys, each with its entry's profile.
pub proof fn lemma_store_entries(store: &ProfileStore)
    requires
        store.wf(),
    ensures
        keys_unique(store.entries_view()),
        forall|k: Seq<char>|
            #![trigger store@.contains_key(k)]
            store@.contains_key(k) <==> exists|i: int|
                0 <= i < store.entries_view().len() && (#[trigger] store.entries_view()[i]).0 == k,
        forall|i: int|
            0 <= i < store.entries_view().len() ==> store@[(#[trigger] store.entries_view()[i]).0]
                == store.entries_view()[i].1,
{
    let es = store.entries_view();
    assert forall|k: Seq<char>| #![trigger store@.contains_key(k)] store@.contains_key(k)
        <==> exists|i: int| 0 <= i < es.len() && (#[trigger] es[i]).0 == k by {
        lemma_entries_map_get(es, k);
    }
    assert forall|i: int| 0 <= i < es.len() implies store@[(#[trigger] es[i]).0] == es[i].1 by {
        lemma_entries_map_get(es, es[i].0);
    }
}

fn copy_entry(e: &(String, Profile)) -> (r: (String, Profile))
    ensures
        entry_view(r) == entry_view(*e),
{
    (owned(e.0.as_str()), e.1.duplicate())
}

impl ProfileStore {
    /// A store holding no profile.
    pub fn empty() -> (s: Self)
        ensures
            s@ == Map::<Seq<char>, ProfileView>::empty(),
            s.entries_view() == Seq::<(Seq<char>, ProfileView)>::empty(),
    {
        let s = ProfileStore { entries: Vec::new() };
        assert(s.entries_view() =~= Seq::<(Seq<char>, ProfileView)>::empty());
        s
    }

    /// Position of the entry with key `key`, if any.
    fn find(&self, key: &str) -> (r: Option<usize>)
        ensures
            match r {
                Some(i) => i < self.entries_view().len() && self.entries_view()[i as int].0
                    == key@,
                None => forall|i: int|
                    0 <= i < self.entries_view().len() ==> (#[trigger] self.entries_view()[i]).0
                        != key@,
            },
    {
        let k = chars_of(key);
        let mut i: usize = 0;
        while i < self.entries.len()
            invariant
                i <= self.entries@.len(),
                k@ == key@,
                forall|j: int| 0 <= j < i ==> (#[trigger] self.entries_view()[j]).0 != key@,
            decreases self.entries@.len() - i,
        {
            let ek = chars_of(self.entries[i].0.as_str());
            assert(self.entries_view()[i as int] == entry_view(self.entries@[i as int]));
            if eq_chars(ek.as_slice(), k.as_slice()) {
                return Some(i);
            }
            i = i + 1;
        }
        None
    }

    /// Store `profile` under `key`, replacing any profile stored under that key.
    pub fn insert_entry(&mut self, key: String, profile: Profile)
        ensures
            final(self)@ == old(self)@.insert(key@, profile@),
    {
        proof {
            use_type_invariant(&*self);
            lemma_store_entries(&*self);
        }
        let ghost old_map = self@;
        let ghost kv = key@;
        let ghost pv = profile@;
        match self.find(key.as_str()) {
            Some(i) => {
                let ghost before = self.entries_view();
                let mut es: Vec<(String, Profile)> = Vec::new();
                std::mem::swap(&mut es, &mut self.entries);
                assert(es@.map_values(|e: (String, Profile)| entry_view(e)) == before);
                let (_old_key, _old_profile) = es.remove(i);
                assert(es@.map_values(|e: (String, Profile)| entry_view(e)) =~= before.remove(i as int));
                es.push((key, profile));
                proof {
                    let after = es@.map_values(|e: (String, Profile)| entry_view(e));
                    assert(after =~= before.remove(i as int).push((kv, pv)));
                    assert(keys_unique(after)) by {
                        assert forall|a: int, b: int| 0 <= a < b < after.len() implies (
                        #[trigger] after[a]).0 != (#[trigger] after[b]).0 by {
                            if b == after.len() - 1 {
                                if a < i {
                                    assert(after[a] == before[a]);
                                } else {
                                    assert(after[a] == before[a + 1]);
                                }
                            } else {
                                let ia = if a < i {
                                    a
                                } else {
                                    a + 1
                                };
                                let ib = if b < i {
                                    b
                                } else {
                                    b + 1
                                };
                                assert(after[a] == before[ia]);
                                assert(after[b] == before[ib]);
                            }
                        }
                    }
                    assert forall|k: Seq<char>| #![trigger entries_map(after).contains_key(k)]
                        entries_map(after).contains_key(k) == old_map.insert(kv, pv).contains_key(
                            k,
                        ) && (entries_map(after).contains_key(k) ==> entries_map(after)[k]
                            == old_map.insert(kv, pv)[k]) by {
                        lemma_entries_map_get(after, k);
                        lemma_entries_map_get(before, k);
                        if k != kv {
                            if exists|j: int| 0 <= j < before.len() && (#[trigger] before[j]).0 == k {
                                let j = choose|j: int|
                                    0 <= j < before.len() && (#[trigger] before[j]).0 == k;
                                let aj = if j < i {
                                    j
                                } else {
                                    j - 1
                                };
                                assert(after[aj] == before[j]);
                            }
                            if exists|j: int| 0 <= j < after.len() && (#[trigger] after[j]).0 == k {
                                let j = choose|j: int|
                                    0 <= j < after.len() && (#[trigger] after[j]).0 == k;
                                let bj = if j < i {
                                    j
                                } else {
                                    j + 1
                                };
                                assert(after[j] == before[bj]);
                            }
                        } else {
                            assert(after[after.len() - 1] == (kv, pv));
                        }
                    }
                    assert(entries_map(after) =~= old_map.insert(kv, pv));
                }
                self.entries = es;
            },
            None => {
                let ghost before = self.entries_view();
                let mut es: Vec<(String, Profile)> = Vec::new();
                std::mem::swap(&mut es, &mut self.entries);
                assert(es@.map_values(|e: (String, Profile)| entry_view(e)) == before);
                es.push((key, profile));
                proof {
                    let after = es@.map_values(|e: (String, Profile)| entry_view(e));
                    assert(after =~= before.push((kv, pv)));
                    assert(keys_unique(after)) by {
                        assert forall|a: int, b: int| 0 <= a < b < after.len() implies (
                        #[trigger] after[a]).0 != (#[trigger] after[b]).0 by {
                            assert(after[a] == before[a]);
                            if b < after.len() - 1 {
                                assert(after[b] == before[b]);
                            }
                        }
                    }
                    assert(after.drop_last() =~= before);
                }
                self.entries = es;
            },
        }
    }

    /// A store holding the given entries (as read from `profiles.json`); a later
    /// entry for a key replaces an earlier one.
    pub fn from_entries(entries: Vec<(String, Profile)>) -> (s: Self)
        ensures
            s@ == entries_map(entries@.map_values(|e: (String, Profile)| entry_view(e))),
    {
        let ghost ev = entries@.map_values(|e: (String, Profile)| entry_view(e));
        let mut s = Self::empty();
        let mut rest = entries;
        let mut taken: Vec<(String, Profile)> = Vec::new();
        let mut i: usize = 0;
        let n = rest.len();
        while i < n
            invariant
                i <= n,
                n == ev.len(),
                ev == entries@.map_values(|e: (String, Profile)| entry_view(e)),
                    s@ == entries_map(ev.take(i as int)),
                forall|j: int| 0 <= j < n ==> entry_view(#[trigger] rest@[j]) == ev[j],
                rest@.len() == n,
            decreases n - i,
        {
            let e = copy_entry(&rest[i]);
            proof {
                assert(ev.take(i + 1).drop_last() =~= ev.take(i as int));
                assert(ev.take(i + 1).last() == ev[i as int]);
            }
            s.insert_entry(e.0, e.1);
            i = i + 1;
        }
        assert(ev.take(n as int) =~= ev);
        s
    }

    /// A copy of the stored entries, in storage order (for writing `profiles.json`).
    pub fn entries(&self) -> (r: Vec<(String, Profile)>)
        ensures
            r@.map_values(|e: (String, Profile)| entry_view(e)) == self.entries_view(),
            entries_map(r@.map_values(|e: (String, Profile)| entry_view(e))) == self@,
    {
        let mut r: Vec<(String, Profile)> = Vec::new();
        let mut i: usize = 0;
        while i < self.entries.len()
            invariant
                i <= self.entries@.len(),
                r@.map_values(|e: (String, Profile)| entry_view(e)) == self.entries_view().take(
                    i as int,
                ),
            decreases self.entries@.len() - i,
        {
            let e = copy_entry(&self.entries[i]);
            let ghost before = r@.map_values(|e: (String, Profile)| entry_view(e));
            let ghost x = entry_view(e);
            r.push(e);
            assert(r@.map_values(|e: (String, Profile)| entry_view(e)) =~= before.push(x));
            assert(self.entries_view().take(i as int).push(self.entries_view()[i as int])
                =~= self.entries_view().take(i + 1));
            i = i + 1;
        }
        assert(self.entries_view().take(self.entries@.len() as int) =~= self.entries_view());
        r
    }

    /// The profile stored under `id`, if any.
    pub fn get(&self, id: &str) -> (r: Option<Profile>)
        ensures
            match r {
                Some(p) => self@.contains_key(id@) && p@ == self@[id@],
                None => !self@.contains_key(id@),
            },
    {
        proof {
            use_type_invariant(self);
            lemma_store_entries(self);
        }
        match self.find(id) {
            Some(i) => {
                assert(self.entries_view()[i as int] == entry_view(self.entries@[i as int]));
                Some(self.entries[i].1.duplicate())
            },
            None => None,
        }
    }

    /// Add a new profile under its identifier; refused when that identifier is taken.
    pub fn create(&mut self, profile: Profile) -> (r: Result<Profile, Error>)
        ensures
            old(self)@.contains_key(profile.id@) ==> (r matches Err(Error::DuplicateProfile(id))
                && id@ == profile.id@ && final(self)@ == old(self)@),
            !old(self)@.contains_key(profile.id@) ==> (r matches Ok(p) && p@ == profile@
                && final(self)@ == old(self)@.insert(profile.id@, profile@)),
    {
        proof {
            use_type_invariant(&*self);
            lemma_store_entries(&*self);
        }
        if self.find(profile.id.as_str()).is_some() {
            return Err(Error::DuplicateProfile(profile.id));
        }
        let result = profile.duplicate();
        let key = owned(profile.id.as_str());
        self.insert_entry(key, profile);
        Ok(result)
    }

    /// Replace the profile stored under the profile's identifier; refused when
    /// nothing is stored under it.
    pub fn update(&mut self, profile: Profile) -> (r: Result<Profile, Error>)
        ensures
            !old(self)@.contains_key(profile.id@) ==> (r matches Err(Error::ProfileNotFound(id))
                && id@ == profile.id@ && final(self)@ == old(self)@),
            old(self)@.contains_key(profile.id@) ==> (r matches Ok(p) && p@ == profile@
                && final(self)@ == old(self)@.insert(profile.id@, profile@)),
    {
        proof {
            use_type_invariant(&*self);
            lemma_store_entries(&*self);
        }
        if self.find(profile.id.as_str()).is_none() {
            return Err(Error::ProfileNotFound(profile.id));
        }
        let result = profile.duplicate();
        let key = owned(profile.id.as_str());
        self.insert_entry(key, profile);
        Ok(result)
    }

    /// Remove the profile stored under `id`; refused when nothing is stored under it.
    pub fn delete(&mut self, id: &str) -> (r: Result<(), Error>)
        ensures
            !old(self)@.contains_key(id@) ==> (r matches Err(Error::ProfileNotFound(e)) && e@
                == id@ && final(self)@ == old(self)@),
            old(self)@.contains_key(id@) ==> (r is Ok && final(self)@ == old(self)@.remove(id@)),
    {
        proof {
            use_type_invariant(&*self);
            lemma_store_entries(&*self);
        }
        let ghost old_map = self@;
        match self.find(id) {
            None => Err(Error::ProfileNotFound(owned(id))),
            Some(i) => {
                let ghost before = self.entries_view();
                let mut es: Vec<(String, Profile)> = Vec::new();
                std::mem::swap(&mut es, &mut self.entries);
                assert(es@.map_values(|e: (String, Profile)| entry_view(e)) == before);
                let _removed = es.remove(i);
                proof {
                    let after = es@.map_values(|e: (String, Profile)| entry_view(e));
                    assert(after =~= before.remove(i as int));
                    assert(keys_unique(after)) by {
                        assert forall|a: int, b: int| 0 <= a < b < after.len() implies (
                        #[trigger] after[a]).0 != (#[trigger] after[b]).0 by {
                            let ia = if a < i {
                                a
                            } else {
                                a + 1
                            };
                            let ib = if b < i {
                                b
                            } else {
                                b + 1
                            };
                            assert(after[a] == before[ia]);
                            assert(after[b] == before[ib]);
                        }
                    }
                    assert forall|k: Seq<char>| #![trigger entries_map(after).contains_key(k)]
                        entries_map(after).contains_key(k) == old_map.remove(id@).contains_key(k)
                            && (entries_map(after).contains_key(k) ==> entries_map(after)[k]
                            == old_map.remove(id@)[k]) by {
                        lemma_entries_map_get(after, k);
                        lemma_entries_map_get(before, k);
                        if k != id@ {
                            if exists|j: int| 0 <= j < before.len() && (#[trigger] before[j]).0 == k {
                                let j = choose|j: int|
                                    0 <= j < before.len() && (#[trigger] before[j]).0 == k;
                                let aj = if j < i {
                                    j
                                } else {
                                    j - 1
                                };
                                assert(after[aj] == before[j]);
                            }
                            if exists|j: int| 0 <= j < after.len() && (#[trigger] after[j]).0 == k {
                                let j = choose|j: int|
                                    0 <= j < after.len() && (#[trigger] after[j]).0 == k;
                                let bj = if j < i {
                                    j
                                } else {
                                    j + 1
                                };
                                assert(after[j] == before[bj]);
                            }
                        } else {
                            assert forall|j: int| 0 <= j < after.len() implies (
                            #[trigger] after[j]).0 != k by {
                                let bj = if j < i {
                                    j
                                } else {
                                    j + 1
                                };
                                assert(after[j] == before[bj]);
                            }
                        }
                    }
                    assert(entries_map(after) =~= old_map.remove(id@));
                }
                self.entries = es;
                Ok(())
            },
        }
    }
}

impl ProfileStore {
    /// All stored profiles, ordered by name.
    pub fn list(&self) -> (r: Vec<Profile>)
        ensures
            sorted_by_name(r@.map_values(|p: Profile| p@)),
            r@.map_values(|p: Profile| p@).to_multiset() == entry_values(
                self.entries_view(),
            ).to_multiset(),
    {
        let ghost total = entry_values(self.entries_view()).to_multiset();
        let mut w: Vec<Profile> = Vec::new();
        let mut i: usize = 0;
        while i < self.entries.len()
            invariant
                i <= self.entries@.len(),
                w@.map_values(|p: Profile| p@) == entry_values(self.entries_view()).take(i as int),
            decreases self.entries@.len() - i,
        {
            let p = self.entries[i].1.duplicate();
            let ghost before = w@.map_values(|p: Profile| p@);
            let ghost x = p@;
            w.push(p);
            assert(w@.map_values(|p: Profile| p@) =~= before.push(x));
            assert(entry_values(self.entries_view()).take(i as int).push(
                entry_values(self.entries_view())[i as int],
            ) =~= entry_values(self.entries_view()).take(i + 1));
            i = i + 1;
        }
        assert(entry_values(self.entries_view()).take(self.entries@.len() as int) =~= entry_values(
            self.entries_view(),
        ));
        let mut r: Vec<Profile> = Vec::new();
        assert(r@.map_values(|p: Profile| p@).to_multiset() =~= Multiset::<ProfileView>::empty());
        while w.len() > 0
            invariant
                r@.map_values(|p: Profile| p@).to_multiset().add(
                    w@.map_values(|p: Profile| p@).to_multiset(),
                ) == total,
                sorted_by_name(r@.map_values(|p: Profile| p@)),
                forall|a: int, b: int|
                    0 <= a < r@.len() && 0 <= b < w@.len() ==> text_le(
                        (#[trigger] r@[a])@.name,
                        (#[trigger] w@[b])@.name,
                    ),
            decreases w@.len(),
        {
            let mut m: usize = 0;
            let mut k: usize = 1;
            proof {
                lemma_text_le_refl(w@[0]@.name);
            }
            while k < w.len()
                invariant
                    0 <= m < w@.len(),
                    m < k <= w@.len(),
                    forall|j: int| 0 <= j < k ==> text_le(w@[m as int]@.name, (#[trigger] w@[j])@.name),
                decreases w@.len() - k,
            {
                let mn = chars_of(w[m].name.as_str());
                let kn = chars_of(w[k].name.as_str());
                if !text_le_exec(mn.as_slice(), kn.as_slice()) {
                    proof {
                        lemma_text_le_total(w@[m as int]@.name, w@[k as int]@.name);
                        assert forall|j: int| 0 <= j < k + 1 implies text_le(
                            w@[k as int]@.name,
                            (#[trigger] w@[j])@.name,
                        ) by {
                            lemma_text_le_refl(w@[k as int]@.name);
                            if j < k {
                                lemma_text_le_trans(
                                    w@[k as int]@.name,
                                    w@[m as int]@.name,
                                    w@[j]@.name,
                                );
                            }
                        }
                    }
                    m = k;
                }
                k = k + 1;
            }
            let ghost rv = r@.map_values(|p: Profile| p@);
            let ghost wv = w@.map_values(|p: Profile| p@);
            let ghost w_old = w@;
            let p = w.remove(m);
            let ghost x = p@;
            r.push(p);
            proof {
                assert(w@.map_values(|p: Profile| p@) =~= wv.remove(m as int));
                assert(r@.map_values(|p: Profile| p@) =~= rv.push(x));
                assert(wv[m as int] == x);
                assert(wv.remove(m as int).to_multiset() =~= wv.to_multiset().remove(x));
                assert(rv.push(x).to_multiset() =~= rv.to_multiset().insert(x));
                assert(wv.to_multiset().contains(x)) by {
                    assert(wv.contains(x)) by {
                        assert(wv[m as int] == x);
                    }
                }
                assert(rv.push(x).to_multiset().add(wv.remove(m as int).to_multiset())
                    =~= rv.to_multiset().add(wv.to_multiset()));
                let rv2 = r@.map_values(|p: Profile| p@);
                assert forall|a: int, b: int| 0 <= a < b < rv2.len() implies text_le(
                    #[trigger] rv2[a].name,
                    #[trigger] rv2[b].name,
                ) by {
                    if b < rv2.len() - 1 {
                        assert(rv2[a] == rv[a] && rv2[b] == rv[b]);
                    } else {
                        assert(rv2[a] == r@[a]@);
                        assert(rv[a] == r@[a]@);
                        assert(text_le(r@[a]@.name, w_old[m as int]@.name));
                    }
                }
                assert forall|a: int, b: int|
                    0 <= a < r@.len() && 0 <= b < w@.len() implies text_le(
                    (#[trigger] r@[a])@.name,
                    (#[trigger] w@[b])@.name,
                ) by {
                    let ob = if b < m {
                        b
                    } else {
                        b + 1
                    };
                    assert(w@[b] == w_old[ob]);
                    if a < r@.len() - 1 {
                        assert(text_le(r@[a]@.name, w_old[ob]@.name));
                    } else {
                        assert(r@[a] == w_old[m as int]);
                    }
                }
            }
        }
        assert(w@.map_values(|p: Profile| p@).to_multiset() =~= Multiset::<ProfileView>::empty());
        r
    }
}

impl ProfileStore {
    /// Move the profile stored under `old_id` to the identifier of `profile`,
    /// storing `profile` there; refused when nothing is stored under `old_id`,
    /// or when the new identifier differs and is already taken.
    pub fn rename(&mut self, old_id: &str, profile: Profile) -> (r: Result<Profile, Error>)
        ensures
            !old(self)@.contains_key(old_id@) ==> (r matches Err(Error::ProfileNotFound(e)) && e@
                == old_id@ && final(self)@ == old(self)@),
            old(self)@.contains_key(old_id@) && profile.id@ != old_id@ && old(self)@.contains_key(
                profile.id@,
            ) ==> (r matches Err(Error::DuplicateProfile(e)) && e@ == profile.id@ && final(self)@
                == old(self)@),
            old(self)@.contains_key(old_id@) && (profile.id@ == old_id@ || !old(
                self,
            )@.contains_key(profile.id@)) ==> (r matches Ok(p) && p@ == profile@ && final(self)@
                == old(self)@.remove(old_id@).insert(profile.id@, profile@)),
    {
        proof {
            use_type_invariant(&*self);
            lemma_store_entries(&*self);
        }
        if self.find(old_id).is_none() {
            return Err(Error::ProfileNotFound(owned(old_id)));
        }
        let old_chars = chars_of(old_id);
        let new_chars = chars_of(profile.id.as_str());
        let same = crate::text::eq_chars(old_chars.as_slice(), new_chars.as_slice());
        if !same && self.find(profile.id.as_str()).is_some() {
            return Err(Error::DuplicateProfile(profile.id));
        }
        let _ = self.delete(old_id);
        let result = profile.duplicate();
        let key = owned(profile.id.as_str());
        self.insert_entry(key, profile);
        Ok(result)
    }
}

/// A profile just created reads back under its identifier, and every other
/// identifier reads as before.
pub proof fn lemma_read_after_create(
    before: Map<Seq<char>, ProfileView>,
    after: Map<Seq<char>, ProfileView>,
    p: ProfileView,
)
    requires
        !before.contains_key(p.id),
        after == before.insert(p.id, p),
    ensures
        after.contains_key(p.id) && after[p.id] == p,
        forall|k: Seq<char>|
            k != p.id ==> (#[trigger] after.contains_key(k) == before.contains_key(k) && (
            after.contains_key(k) ==> after[k] == before[k])),
{
}

/// A profile just updated reads back with its new contents.
pub proof fn lemma_read_after_update(
    before: Map<Seq<char>, ProfileView>,
    after: Map<Seq<char>, ProfileView>,
    p: ProfileView,
)
    requires
        before.contains_key(p.id),
        after == before.insert(p.id, p),
    ensures
        after.contains_key(p.id) && after[p.id] == p,
        after.dom() == before.dom(),
{
    assert(after.dom() =~= before.dom());
}

/// A deleted identifier reads as absent, and every other identifier as before.
pub proof fn lemma_read_after_delete(
    before: Map<Seq<char>, ProfileView>,
    after: Map<Seq<char>, ProfileView>,
    id: Seq<char>,
)
    requires
        after == before.remove(id),
    ensures
        !after.contains_key(id),
        forall|k: Seq<char>|
            k != id ==> (#[trigger] after.contains_key(k) == before.contains_key(k) && (
            after.contains_key(k) ==> after[k] == before[k])),
{
}

/// Deleting a profile right after creating it leaves the store as it was.
pub proof fn lemma_delete_undoes_create(before: Map<Seq<char>, ProfileView>, p: ProfileView)
    requires
        !before.contains_key(p.id),
    ensures
        before.insert(p.id, p).remove(p.id) == before,
{
    assert(before.insert(p.id, p).remove(p.id) =~= before);
}

/// After a rename, the old identifier reads as absent unless it is also the
/// new one, and the new identifier reads back the renamed profile.
pub proof fn lemma_read_after_rename(
    before: Map<Seq<char>, ProfileView>,
    after: Map<Seq<char>, ProfileView>,
    old_id: Seq<char>,
    p: ProfileView,
)
    requires
        after == before.remove(old_id).insert(p.id, p),
    ensures
        after.contains_key(p.id) && after[p.id] == p,
        p.id != old_id ==> !after.contains_key(old_id),
{
}

proof fn lemma_entries_map_size(es: Seq<(Seq<char>, ProfileView)>)
    requires
        keys_unique(es),
    ensures
        entries_map(es).dom().finite(),
        entries_map(es).dom().len() == es.len(),
    decreases es.len(),
{
    if es.len() > 0 {
        let p = es.drop_last();
        assert(keys_unique(p)) by {
            assert forall|i: int, j: int| 0 <= i < j < p.len() implies (#[trigger] p[i]).0 != (
            #[trigger] p[j]).0 by {
                assert(p[i] == es[i] && p[j] == es[j]);
            }
        }
        lemma_entries_map_size(p);
        lemma_entries_map_get(p, es.last().0);
        assert(!entries_map(p).contains_key(es.last().0)) by {
            if entries_map(p).contains_key(es.last().0) {
                let i = choose|i: int| 0 <= i < p.len() && (#[trigger] p[i]).0 == es.last().0;
                assert(p[i] == es[i]);
                assert(es[i].0 != es[es.len() - 1].0);
            }
        }
        assert(entries_map(es).dom() =~= entries_map(p).dom().insert(es.last().0));
    }
}

/// Listing a store gives each stored profile once: a profile is listed exactly
/// when the store holds it under some identifier, and as many profiles are
/// listed as identifiers are stored.
pub proof fn lemma_list_is_contents(store: &ProfileStore, listed: Seq<ProfileView>)
    requires
        store.wf(),
        listed.to_multiset() == entry_values(store.entries_view()).to_multiset(),
    ensures
        forall|p: ProfileView|
            #![trigger listed.contains(p)]
            listed.contains(p) <==> exists|k: Seq<char>| store@.contains_key(k) && store@[k] == p,
        listed.len() == store@.dom().len(),
{
    broadcast use vstd::seq_lib::group_to_multiset_ensures;

    lemma_store_entries(store);
    let es = store.entries_view();
    let vs = entry_values(es);
    lemma_entries_map_size(es);
    assert forall|p: ProfileView| #![trigger listed.contains(p)] listed.contains(p) <==> exists|
        k: Seq<char>,
    | store@.contains_key(k) && store@[k] == p by {
        assert(listed.contains(p) <==> listed.to_multiset().count(p) > 0);
        assert(vs.contains(p) <==> vs.to_multiset().count(p) > 0);
        if vs.contains(p) {
            let i = choose|i: int| 0 <= i < vs.len() && vs[i] == p;
            assert(vs[i] == es[i].1);
            assert(store@.contains_key(es[i].0));
        }
        if exists|k: Seq<char>| store@.contains_key(k) && store@[k] == p {
            let k = choose|k: Seq<char>| store@.contains_key(k) && store@[k] == p;
            let i = choose|i: int| 0 <= i < es.len() && (#[trigger] es[i]).0 == k;
            assert(vs[i] == es[i].1);
            assert(vs.contains(p));
        }
    }
    assert(listed.len() == listed.to_multiset().len());
    assert(vs.len() == vs.to_multiset().len());
}

} // verus!
