//! An in-memory model of the coordination store.
//!
//! The service's registry state lives in an external, multi-client store that
//! offers keyed field sets (hash records), idempotent membership sets, ranked
//! (sorted) sets, and opaque script registration. This module gives those
//! operations an exact, verified model: a [`Store`] value holds the same
//! state as the external store, every operation's contract is stated over
//! mathematical maps and sets, and the registry's idempotency laws are proved
//! against it. A process that talks to the real store performs the very same
//! operations over the wire, one for one.

use vstd::prelude::*;

use crate::text::dec_str;

verus! {

/// Outer keys of an association list are pairwise distinct.
pub open spec fn keys_unique<V>(s: Seq<(String, V)>) -> bool {
    forall|i: int, j: int| 0 <= i < j < s.len() ==> s[i].0@ != s[j].0@
}

/// The map an association list denotes; a later entry would win, though a
/// well-formed store never holds two entries with one key.
pub open spec fn assoc_map<V: View>(s: Seq<(String, V)>) -> Map<Seq<char>, V::V>
    decreases s.len(),
{
    if s.len() == 0 {
        Map::empty()
    } else {
        assoc_map(s.drop_last()).insert(s.last().0@, s.last().1@)
    }
}

/// The entry at index `i` of a key-unique association list is the map's
/// binding for its key.
pub proof fn lemma_assoc_found<V: View>(s: Seq<(String, V)>, i: int)
    requires
        keys_unique(s),
        0 <= i < s.len(),
    ensures
        assoc_map(s).contains_key(s[i].0@),
        assoc_map(s)[s[i].0@] == s[i].1@,
    decreases s.len(),
{
    if i < s.len() - 1 {
        lemma_assoc_found(s.drop_last(), i);
    }
}

/// A key under no entry of the association list is not in the map.
pub proof fn lemma_assoc_absent<V: View>(s: Seq<(String, V)>, k: Seq<char>)
    requires
        forall|i: int| 0 <= i < s.len() ==> s[i].0@ != k,
    ensures
        !assoc_map(s).contains_key(k),
    decreases s.len(),
{
    if s.len() > 0 {
        lemma_assoc_absent(s.drop_last(), k);
    }
}

/// Appending an entry inserts its binding.
pub proof fn lemma_assoc_push<V: View>(s: Seq<(String, V)>, k: String, v: V)
    ensures
        assoc_map(s.push((k, v))) == assoc_map(s).insert(k@, v@),
{
    assert(s.push((k, v)).drop_last() =~= s);
}

/// Replacing the value at index `i` of a key-unique association list inserts
/// the new binding for that entry's key.
pub proof fn lemma_assoc_update<V: View>(s: Seq<(String, V)>, i: int, v: V)
    requires
        keys_unique(s),
        0 <= i < s.len(),
    ensures
        assoc_map(s.update(i, (s[i].0, v))) == assoc_map(s).insert(s[i].0@, v@),
    decreases s.len(),
{
    let t = s.update(i, (s[i].0, v));
    if i == s.len() - 1 {
        assert(t.drop_last() =~= s.drop_last());
        assert(assoc_map(t) =~= assoc_map(s).insert(s[i].0@, v@));
    } else {
        assert(t.drop_last() =~= s.drop_last().update(i, (s[i].0, v)));
        lemma_assoc_update(s.drop_last(), i, v);
        assert(s[i].0@ != s.last().0@);
        assert(assoc_map(t) =~= assoc_map(s).insert(s[i].0@, v@));
    }
}

/// One keyed field set: the named fields of one record, each holding bytes.
pub struct FieldTable {
    entries: Vec<(String, Vec<u8>)>,
}

impl View for FieldTable {
    type V = Map<Seq<char>, Seq<u8>>;

    closed spec fn view(&self) -> Map<Seq<char>, Seq<u8>> {
        assoc_map(self.entries@)
    }
}

impl FieldTable {
    /// Field names are pairwise distinct.
    pub closed spec fn wf(&self) -> bool {
        keys_unique(self.entries@)
    }

    /// An empty record.
    pub fn new() -> (t: FieldTable)
        ensures
            t.wf(),
            t@ == Map::<Seq<char>, Seq<u8>>::empty(),
    {
        let t = FieldTable { entries: Vec::new() };
        proof {
            assert(t@ =~= Map::<Seq<char>, Seq<u8>>::empty());
        }
        t
    }

    /// Writes one field, replacing any earlier value.
    pub fn set_field(&mut self, field: String, value: Vec<u8>)
        requires
            old(self).wf(),
        ensures
            final(self).wf(),
            final(self)@ == old(self)@.insert(field@, value@),
    {
        let n = self.entries.len();
        let mut i: usize = 0;
        while i < n
            invariant
                n == self.entries@.len(),
                i <= n,
                self.wf(),
                *self == *old(self),
                forall|j: int| 0 <= j < i ==> self.entries@[j].0@ != field@,
            decreases n - i,
        {
            if self.entries[i].0 == field {
                let ghost olds = self.entries@;
                let e = &mut self.entries[i];
                e.1 = value;
                proof {
                    assert(self.entries@ =~= olds.update(i as int, (olds[i as int].0, self.entries@[i as int].1)));
                    lemma_assoc_update(olds, i as int, self.entries@[i as int].1);
                    assert(keys_unique(self.entries@));
                }
                return ;
            }
            i = i + 1;
        }
        proof {
            lemma_assoc_push(self.entries@, field, value);
            lemma_assoc_absent(self.entries@, field@);
        }
        let ghost olds = self.entries@;
        self.entries.push((field, value));
        proof {
            assert(keys_unique(self.entries@));
        }
    }

    /// Reads one field.
    pub fn get_field<'a>(&'a self, field: &String) -> (r: Option<&'a Vec<u8>>)
        requires
            self.wf(),
        ensures
            match r {
                Some(v) => self@.contains_key(field@) && v@ == self@[field@],
                None => !self@.contains_key(field@),
            },
    {
        let n = self.entries.len();
        let mut i: usize = 0;
        while i < n
            invariant
                n == self.entries@.len(),
                i <= n,
                self.wf(),
                forall|j: int| 0 <= j < i ==> self.entries@[j].0@ != field@,
            decreases n - i,
        {
            if self.entries[i].0 == *field {
                proof {
                    lemma_assoc_found(self.entries@, i as int);
                }
                return Some(&self.entries[i].1);
            }
            i = i + 1;
        }
        proof {
            lemma_assoc_absent(self.entries@, field@);
        }
        None
    }
}

/// The character sequences a vector of strings holds.
pub open spec fn string_views(s: Seq<String>) -> Seq<Seq<char>> {
    s.map_values(|m: String| m@)
}

/// One membership set, with idempotent addition.
pub struct MemberSet {
    members: Vec<String>,
}

impl View for MemberSet {
    type V = Set<Seq<char>>;

    closed spec fn view(&self) -> Set<Seq<char>> {
        string_views(self.members@).to_set()
    }
}

impl MemberSet {
    /// Members are pairwise distinct.
    pub closed spec fn wf(&self) -> bool {
        forall|i: int, j: int|
            0 <= i < j < self.members@.len() ==> self.members@[i]@ != self.members@[j]@
    }

    /// An empty set.
    pub fn new() -> (t: MemberSet)
        ensures
            t.wf(),
            t@ == Set::<Seq<char>>::empty(),
    {
        let t = MemberSet { members: Vec::new() };
        proof {
            assert(t@ =~= Set::<Seq<char>>::empty());
        }
        t
    }

    /// Whether `member` is in the set.
    pub fn contains(&self, member: &String) -> (r: bool)
        ensures
            r == self@.contains(member@),
    {
        let n = self.members.len();
        let mut i: usize = 0;
        while i < n
            invariant
                n == self.members@.len(),
                i <= n,
                forall|j: int| 0 <= j < i ==> self.members@[j]@ != member@,
            decreases n - i,
        {
            if self.members[i] == *member {
                proof {
                    assert(string_views(self.members@)[i as int] == member@);
                    assert(self@.contains(member@));
                }
                return true;
            }
            i = i + 1;
        }
        proof {
            assert forall|e: Seq<char>| string_views(self.members@).contains(e) implies e
                != member@ by {
                let j = choose|j: int|
                    0 <= j < string_views(self.members@).len() && string_views(self.members@)[j]
                        == e;
                assert(self.members@[j]@ == e);
            }
            assert(!self@.contains(member@));
        }
        false
    }

    /// Adds `member`; reports whether it was new. Re-adding an existing
    /// member changes nothing.
    pub fn add(&mut self, member: String) -> (added: bool)
        requires
            old(self).wf(),
        ensures
            final(self).wf(),
            added == !old(self)@.contains(member@),
            final(self)@ == old(self)@.insert(member@),
    {
        if self.contains(&member) {
            proof {
                assert(self@ =~= self@.insert(member@));
            }
            return false;
        }
        let ghost olds = self.members@;
        self.members.push(member);
        proof {
            assert(string_views(self.members@) =~= string_views(olds).push(member@));
            string_views(olds).lemma_push_to_set_commute(member@);
            assert(self@ =~= old(self)@.insert(member@));
            assert forall|i: int, j: int|
                0 <= i < j < self.members@.len() implies self.members@[i]@
                != self.members@[j]@ by {
                if j == self.members@.len() - 1 {
                    assert(string_views(olds)[i] == self.members@[i]@);
                    assert(!old(self)@.contains(member@));
                }
            }
        }
        true
    }
}

/// One ranked set: members carrying a numeric score, with idempotent
/// membership and last-write score.
pub struct RankedSet {
    entries: Vec<(String, u64)>,
}

impl View for RankedSet {
    type V = Map<Seq<char>, u64>;

    closed spec fn view(&self) -> Map<Seq<char>, u64> {
        assoc_map(self.entries@)
    }
}

impl RankedSet {
    /// Members are pairwise distinct.
    pub closed spec fn wf(&self) -> bool {
        keys_unique(self.entries@)
    }

    /// An empty ranked set.
    pub fn new() -> (t: RankedSet)
        ensures
            t.wf(),
            t@ == Map::<Seq<char>, u64>::empty(),
    {
        let t = RankedSet { entries: Vec::new() };
        proof {
            assert(t@ =~= Map::<Seq<char>, u64>::empty());
        }
        t
    }

    /// Whether `member` is in the set.
    pub fn contains(&self, member: &String) -> (r: bool)
        requires
            self.wf(),
        ensures
            r == self@.contains_key(member@),
    {
        let n = self.entries.len();
        let mut i: usize = 0;
        while i < n
            invariant
                n == self.entries@.len(),
                i <= n,
                self.wf(),
                forall|j: int| 0 <= j < i ==> self.entries@[j].0@ != member@,
            decreases n - i,
        {
            if self.entries[i].0 == *member {
                proof {
                    lemma_assoc_found(self.entries@, i as int);
                }
                return true;
            }
            i = i + 1;
        }
        proof {
            lemma_assoc_absent(self.entries@, member@);
        }
        false
    }

    /// Adds `member` with `score`, updating the score of an existing member;
    /// reports whether the member was new.
    pub fn add(&mut self, score: u64, member: String) -> (added: bool)
        requires
            old(self).wf(),
        ensures
            final(self).wf(),
            added == !old(self)@.contains_key(member@),
            final(self)@ == old(self)@.insert(member@, score),
    {
        let n = self.entries.len();
        let mut i: usize = 0;
        while i < n
            invariant
                n == self.entries@.len(),
                i <= n,
                self.wf(),
                *self == *old(self),
                forall|j: int| 0 <= j < i ==> self.entries@[j].0@ != member@,
            decreases n - i,
        {
            if self.entries[i].0 == member {
                let ghost olds = self.entries@;
                proof {
                    lemma_assoc_found(olds, i as int);
                }
                let e = &mut self.entries[i];
                e.1 = score;
                proof {
                    assert(self.entries@ =~= olds.update(i as int, (olds[i as int].0, score)));
                    lemma_assoc_update(olds, i as int, score);
                    assert(keys_unique(self.entries@));
                }
                return false;
            }
            i = i + 1;
        }
        proof {
            lemma_assoc_push(self.entries@, member, score);
            lemma_assoc_absent(self.entries@, member@);
        }
        let ghost olds = self.entries@;
        self.entries.push((member, score));
        proof {
            assert(keys_unique(self.entries@));
        }
        true
    }
}

/// The mathematical state of the coordination store: records, membership
/// sets, ranked sets, and the registered script sources, in order of
/// registration.
#[verifier::ext_equal]
pub ghost struct StoreView {
    pub hashes: Map<Seq<char>, Map<Seq<char>, Seq<u8>>>,
    pub sets: Map<Seq<char>, Set<Seq<char>>>,
    pub ranked: Map<Seq<char>, Map<Seq<char>, u64>>,
    pub scripts: Seq<Seq<char>>,
}

/// The record under `key`, or an empty one where none exists yet.
pub open spec fn sv_record(v: StoreView, key: Seq<char>) -> Map<Seq<char>, Seq<u8>> {
    if v.hashes.contains_key(key) {
        v.hashes[key]
    } else {
        Map::empty()
    }
}

/// The membership set under `key`, or an empty one where none exists yet.
pub open spec fn sv_set(v: StoreView, key: Seq<char>) -> Set<Seq<char>> {
    if v.sets.contains_key(key) {
        v.sets[key]
    } else {
        Set::empty()
    }
}

/// The ranked set under `key`, or an empty one where none exists yet.
pub open spec fn sv_ranked(v: StoreView, key: Seq<char>) -> Map<Seq<char>, u64> {
    if v.ranked.contains_key(key) {
        v.ranked[key]
    } else {
        Map::empty()
    }
}

/// Writing one field of the record under `key`.
pub open spec fn sv_set_field(v: StoreView, key: Seq<char>, field: Seq<char>, value: Seq<u8>) -> StoreView {
    StoreView { hashes: v.hashes.insert(key, sv_record(v, key).insert(field, value)), ..v }
}

/// Writing a whole field list into the record under `key`, one field at a
/// time from the last pair forward.
pub open spec fn sv_write_fields(
    v: StoreView,
    key: Seq<char>,
    fields: Seq<(Seq<char>, Seq<u8>)>,
) -> StoreView
    decreases fields.len(),
{
    if fields.len() == 0 {
        v
    } else {
        sv_write_fields(
            sv_set_field(v, key, fields.last().0, fields.last().1),
            key,
            fields.drop_last(),
        )
    }
}

/// Adding a member to the membership set under `key`.
pub open spec fn sv_add_member(v: StoreView, key: Seq<char>, member: Seq<char>) -> StoreView {
    StoreView { sets: v.sets.insert(key, sv_set(v, key).insert(member)), ..v }
}

/// Adding a member with a score to the ranked set under `key`.
pub open spec fn sv_add_ranked(v: StoreView, key: Seq<char>, score: u64, member: Seq<char>) -> StoreView {
    StoreView { ranked: v.ranked.insert(key, sv_ranked(v, key).insert(member, score)), ..v }
}

/// Registering a script appends its source.
pub open spec fn sv_register_script(v: StoreView, source: Seq<char>) -> StoreView {
    StoreView { scripts: v.scripts.push(source), ..v }
}

/// The handle a newly registered script gets: the decimal rendering of its
/// registration index.
pub open spec fn sv_script_handle(v: StoreView) -> Seq<char> {
    dec_str(v.scripts.len())
}

/// The field pairs a vector of name/value pairs denotes.
pub open spec fn field_views(s: Seq<(String, Vec<u8>)>) -> Seq<(Seq<char>, Seq<u8>)> {
    s.map_values(|p: (String, Vec<u8>)| (p.0@, p.1@))
}

/// The in-memory coordination store: the model every registry contract is
/// stated against, and the state a test inspects.
pub struct Store {
    hashes: Vec<(String, FieldTable)>,
    sets: Vec<(String, MemberSet)>,
    ranked: Vec<(String, RankedSet)>,
    scripts: Vec<String>,
}

impl View for Store {
    type V = StoreView;

    closed spec fn view(&self) -> StoreView {
        StoreView {
            hashes: assoc_map(self.hashes@),
            sets: assoc_map(self.sets@),
            ranked: assoc_map(self.ranked@),
            scripts: string_views(self.scripts@),
        }
    }
}

impl Store {
    /// Keys are unique in every table and every inner structure is
    /// well-formed.
    pub closed spec fn wf(&self) -> bool {
        &&& keys_unique(self.hashes@)
        &&& keys_unique(self.sets@)
        &&& keys_unique(self.ranked@)
        &&& forall|i: int| 0 <= i < self.hashes@.len() ==> (#[trigger] self.hashes@[i]).1.wf()
        &&& forall|i: int| 0 <= i < self.sets@.len() ==> (#[trigger] self.sets@[i]).1.wf()
        &&& forall|i: int| 0 <= i < self.ranked@.len() ==> (#[trigger] self.ranked@[i]).1.wf()
    }

    /// An empty store.
    pub fn new() -> (s: Store)
        ensures
            s.wf(),
            s@.hashes == Map::<Seq<char>, Map<Seq<char>, Seq<u8>>>::empty(),
            s@.sets == Map::<Seq<char>, Set<Seq<char>>>::empty(),
            s@.ranked == Map::<Seq<char>, Map<Seq<char>, u64>>::empty(),
            s@.scripts == Seq::<Seq<char>>::empty(),
    {
        let s = Store { hashes: Vec::new(), sets: Vec::new(), ranked: Vec::new(), scripts: Vec::new() };
        proof {
            assert(s@.hashes =~= Map::<Seq<char>, Map<Seq<char>, Seq<u8>>>::empty());
            assert(s@.sets =~= Map::<Seq<char>, Set<Seq<char>>>::empty());
            assert(s@.ranked =~= Map::<Seq<char>, Map<Seq<char>, u64>>::empty());
            assert(s@.scripts =~= Seq::<Seq<char>>::empty());
        }
        s
    }

    /// Writes one field of the record under `key`, creating the record if it
    /// is absent.
    pub fn set_hash_field(&mut self, key: &String, field: String, value: Vec<u8>)
        requires
            old(self).wf(),
        ensures
            final(self).wf(),
            final(self)@ == sv_set_field(old(self)@, key@, field@, value@),
    {
        let n = self.hashes.len();
        let mut i: usize = 0;
        while i < n
            invariant
                n == self.hashes@.len(),
                i <= n,
                self.wf(),
                *self == *old(self),
                forall|j: int| 0 <= j < i ==> self.hashes@[j].0@ != key@,
            decreases n - i,
        {
            if self.hashes[i].0 == *key {
                let ghost olds = self.hashes@;
                proof {
                    lemma_assoc_found(olds, i as int);
                }
                let e = &mut self.hashes[i];
                e.1.set_field(field, value);
                proof {
                    assert(self.hashes@ =~= olds.update(
                        i as int,
                        (olds[i as int].0, self.hashes@[i as int].1),
                    ));
                    lemma_assoc_update(olds, i as int, self.hashes@[i as int].1);
                    assert(keys_unique(self.hashes@));
                    assert(self@ =~= sv_set_field(old(self)@, key@, field@, value@));
                }
                return ;
            }
            i = i + 1;
        }
        proof {
            lemma_assoc_absent(self.hashes@, key@);
        }
        let mut t = FieldTable::new();
        t.set_field(field, value);
        let k2 = key.clone();
        proof {
            lemma_assoc_push(self.hashes@, k2, t);
        }
        self.hashes.push((k2, t));
        proof {
            assert(keys_unique(self.hashes@));
            assert(self@ =~= sv_set_field(old(self)@, key@, field@, value@));
        }
    }

    /// Writes every field of `fields` into the record under `key`: an atomic
    /// single-key, multi-field write.
    pub fn write_fields(&mut self, key: &String, fields: Vec<(String, Vec<u8>)>)
        requires
            old(self).wf(),
        ensures
            final(self).wf(),
            final(self)@ == sv_write_fields(old(self)@, key@, field_views(fields@)),
    {
        let mut rest = fields;
        while rest.len() > 0
            invariant
                self.wf(),
                sv_write_fields(old(self)@, key@, field_views(fields@)) == sv_write_fields(
                    self@,
                    key@,
                    field_views(rest@),
                ),
            decreases rest@.len(),
        {
            let ghost before = rest@;
            let (f, v) = rest.pop().unwrap();
            proof {
                assert(field_views(before).drop_last() =~= field_views(rest@));
                assert(field_views(before).last() == (f@, v@));
            }
            self.set_hash_field(key, f, v);
        }
        proof {
            assert(field_views(rest@) =~= Seq::<(Seq<char>, Seq<u8>)>::empty());
        }
    }

    /// Reads one field of the record under `key`.
    pub fn hash_field<'a>(&'a self, key: &String, field: &String) -> (r: Option<&'a Vec<u8>>)
        requires
            self.wf(),
        ensures
            match r {
                Some(v) => sv_record(self@, key@).contains_key(field@) && v@ == sv_record(
                    self@,
                    key@,
                )[field@],
                None => !sv_record(self@, key@).contains_key(field@),
            },
    {
        let n = self.hashes.len();
        let mut i: usize = 0;
        while i < n
            invariant
                n == self.hashes@.len(),
                i <= n,
                self.wf(),
                forall|j: int| 0 <= j < i ==> self.hashes@[j].0@ != key@,
            decreases n - i,
        {
            if self.hashes[i].0 == *key {
                proof {
                    lemma_assoc_found(self.hashes@, i as int);
                }
                return self.hashes[i].1.get_field(field);
            }
            i = i + 1;
        }
        proof {
            lemma_assoc_absent(self.hashes@, key@);
        }
        None
    }

    /// Adds `member` to the membership set under `key`, creating the set if
    /// it is absent; reports whether the member was new. Re-adding an
    /// existing member changes nothing: the write is idempotent.
    pub fn add_member(&mut self, key: &String, member: String) -> (added: bool)
        requires
            old(self).wf(),
        ensures
            final(self).wf(),
            final(self)@ == sv_add_member(old(self)@, key@, member@),
            added == !sv_set(old(self)@, key@).contains(member@),
    {
        let n = self.sets.len();
        let mut i: usize = 0;
        while i < n
            invariant
                n == self.sets@.len(),
                i <= n,
                self.wf(),
                *self == *old(self),
                forall|j: int| 0 <= j < i ==> self.sets@[j].0@ != key@,
            decreases n - i,
        {
            if self.sets[i].0 == *key {
                let ghost olds = self.sets@;
                proof {
                    lemma_assoc_found(olds, i as int);
                }
                let e = &mut self.sets[i];
                let added = e.1.add(member);
                proof {
                    assert(self.sets@ =~= olds.update(
                        i as int,
                        (olds[i as int].0, self.sets@[i as int].1),
                    ));
                    lemma_assoc_update(olds, i as int, self.sets@[i as int].1);
                    assert(keys_unique(self.sets@));
                    assert(self@ =~= sv_add_member(old(self)@, key@, member@));
                }
                return added;
            }
            i = i + 1;
        }
        proof {
            lemma_assoc_absent(self.sets@, key@);
        }
        let mut t = MemberSet::new();
        let added = t.add(member);
        let k2 = key.clone();
        proof {
            lemma_assoc_push(self.sets@, k2, t);
        }
        self.sets.push((k2, t));
        proof {
            assert(keys_unique(self.sets@));
            assert(sv_set(old(self)@, key@) =~= Set::<Seq<char>>::empty());
            assert(self@ =~= sv_add_member(old(self)@, key@, member@));
        }
        added
    }

    /// Whether `member` is in the membership set under `key`.
    pub fn set_contains(&self, key: &String, member: &String) -> (r: bool)
        requires
            self.wf(),
        ensures
            r == sv_set(self@, key@).contains(member@),
    {
        let n = self.sets.len();
        let mut i: usize = 0;
        while i < n
            invariant
                n == self.sets@.len(),
                i <= n,
                self.wf(),
                forall|j: int| 0 <= j < i ==> self.sets@[j].0@ != key@,
            decreases n - i,
        {
            if self.sets[i].0 == *key {
                proof {
                    lemma_assoc_found(self.sets@, i as int);
                }
                return self.sets[i].1.contains(member);
            }
            i = i + 1;
        }
        proof {
            lemma_assoc_absent(self.sets@, key@);
        }
        false
    }

    /// Adds `member` with `score` to the ranked set under `key`, creating the
    /// set if it is absent; reports whether the member was new. The score of
    /// an existing member is updated; membership itself is idempotent.
    pub fn add_ranked(&mut self, key: &String, score: u64, member: String) -> (added: bool)
        requires
            old(self).wf(),
        ensures
            final(self).wf(),
            final(self)@ == sv_add_ranked(old(self)@, key@, score, member@),
            added == !sv_ranked(old(self)@, key@).contains_key(member@),
    {
        let n = self.ranked.len();
        let mut i: usize = 0;
        while i < n
            invariant
                n == self.ranked@.len(),
                i <= n,
                self.wf(),
                *self == *old(self),
                forall|j: int| 0 <= j < i ==> self.ranked@[j].0@ != key@,
            decreases n - i,
        {
            if self.ranked[i].0 == *key {
                let ghost olds = self.ranked@;
                proof {
                    lemma_assoc_found(olds, i as int);
                }
                let e = &mut self.ranked[i];
                let added = e.1.add(score, member);
                proof {
                    assert(self.ranked@ =~= olds.update(
                        i as int,
                        (olds[i as int].0, self.ranked@[i as int].1),
                    ));
                    lemma_assoc_update(olds, i as int, self.ranked@[i as int].1);
                    assert(keys_unique(self.ranked@));
                    assert(self@ =~= sv_add_ranked(old(self)@, key@, score, member@));
                }
                return added;
            }
            i = i + 1;
        }
        proof {
            lemma_assoc_absent(self.ranked@, key@);
        }
        let mut t = RankedSet::new();
        let added = t.add(score, member);
        let k2 = key.clone();
        proof {
            lemma_assoc_push(self.ranked@, k2, t);
        }
        self.ranked.push((k2, t));
        proof {
            assert(keys_unique(self.ranked@));
            assert(sv_ranked(old(self)@, key@) =~= Map::<Seq<char>, u64>::empty());
            assert(self@ =~= sv_add_ranked(old(self)@, key@, score, member@));
        }
        added
    }

    /// Whether `member` is in the ranked set under `key`.
    pub fn ranked_contains(&self, key: &String, member: &String) -> (r: bool)
        requires
            self.wf(),
        ensures
            r == sv_ranked(self@, key@).contains_key(member@),
    {
        let n = self.ranked.len();
        let mut i: usize = 0;
        while i < n
            invariant
                n == self.ranked@.len(),
                i <= n,
                self.wf(),
                forall|j: int| 0 <= j < i ==> self.ranked@[j].0@ != key@,
            decreases n - i,
        {
            if self.ranked[i].0 == *key {
                proof {
                    lemma_assoc_found(self.ranked@, i as int);
                }
                return self.ranked[i].1.contains(member);
            }
            i = i + 1;
        }
        proof {
            lemma_assoc_absent(self.ranked@, key@);
        }
        false
    }

    /// Registers a script source and returns its opaque handle.
    pub fn register_script(&mut self, source: String) -> (handle: String)
        requires
            old(self).wf(),
        ensures
            final(self).wf(),
            final(self)@ == sv_register_script(old(self)@, source@),
            handle@ == sv_script_handle(old(self)@),
    {
        let handle = crate::text::u64_to_dec(self.scripts.len() as u64);
        let ghost olds = self.scripts@;
        self.scripts.push(source);
        proof {
            assert(string_views(self.scripts@) =~= string_views(olds).push(source@));
            assert(self@ =~= sv_register_script(old(self)@, source@));
        }
        handle
    }
}

} // verus!
