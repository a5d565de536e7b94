use vstd::prelude::*;
use crate::text::str_equal;

verus! {

/// An entity together with the key under which a repository holds it.
pub struct Entity<ENTITY, ID> {
    pub id: ID,
    pub entity: ENTITY,
}

impl<ENTITY, ID> Entity<ENTITY, ID> {
    /// Pairs an entity with its key.
    pub fn new(id: ID, entity: ENTITY) -> (r: Entity<ENTITY, ID>)
        ensures
            r.id == id,
            r.entity == entity,
    {
        Entity { id: id, entity: entity }
    }
}

/// Whether `list` holds each entry of `entries` exactly once, as a
/// key with a reference to its entity, in any order.
pub open spec fn lists_entries<ENTITY>(
    list: Seq<Entity<&ENTITY, &str>>,
    entries: Map<Seq<char>, ENTITY>,
) -> bool {
    &&& forall|i: int|
        0 <= i < list.len() ==> entries.contains_key((#[trigger] list[i]).id@) && entries[list[i].id@]
            == *list[i].entity
    &&& forall|i: int, j: int|
        0 <= i < j < list.len() ==> (#[trigger] list[i]).id@ != (#[trigger] list[j]).id@
    &&& forall|k: Seq<char>|
        #[trigger] entries.contains_key(k) ==> exists|i: int| 0 <= i < list.len() && (#[trigger] list[i]).id@ == k
}

/// A store of entities, each under a string key.
pub trait Repository<ENTITY> {
    /// The entities held, by key.
    spec fn entries(&self) -> Map<Seq<char>, ENTITY>;

    /// Whether the store is well formed.
    spec fn wf(&self) -> bool;

    /// Stores an entity under a fresh key and returns that key.
    fn create(&mut self, entity: ENTITY) -> (key: String)
        requires
            old(self).wf(),
        ensures
            final(self).wf(),
            final(self).entries() == old(self).entries().insert(key@, entity),
    ;

    /// The entity stored under `key`.
    fn get(&self, key: &str) -> (r: &ENTITY)
        requires
            self.wf(),
            self.entries().contains_key(key@),
        ensures
            *r == self.entries()[key@],
    ;

    /// Every entity with its key, in no particular order.
    fn list(&self) -> (r: Vec<Entity<&ENTITY, &str>>)
        requires
            self.wf(),
        ensures
            lists_entries(r@, self.entries()),
    ;

    /// Stores `entity` under `key`, replacing what was there.
    fn update(&mut self, key: String, entity: ENTITY)
        requires
            old(self).wf(),
        ensures
            final(self).wf(),
            final(self).entries() == old(self).entries().insert(key@, entity),
    ;

    /// Removes what is stored under `key`, if anything.
    fn delete(&mut self, key: &str)
        requires
            old(self).wf(),
        ensures
            final(self).wf(),
            final(self).entries() == old(self).entries().remove(key@),
    ;
}

/// A repository whose entities can be changed in place.
pub trait MutRepository<ENTITY>: Repository<ENTITY> {
    /// The entity stored under `key`, to change in place.
    fn get_mut(&mut self, key: &str) -> (r: &mut ENTITY)
        requires
            old(self).wf(),
            old(self).entries().contains_key(key@),
        ensures
            final(self).wf(),
            *r == old(self).entries()[key@],
            final(self).entries() == old(self).entries().insert(key@, *final(r)),
    ;
}

/// After an entity is written under a key (by `create`, `update` or a
/// change through `get_mut`), reading that key gives the entity back and
/// every other key reads as before.
pub proof fn law_read_after_write<ENTITY, R: Repository<ENTITY>>(before: R, after: R, key: Seq<char>, e: ENTITY)
    requires
        after.entries() == before.entries().insert(key, e),
    ensures
        after.entries().contains_key(key),
        after.entries()[key] == e,
        forall|k: Seq<char>|
            k != key ==> (#[trigger] after.entries().contains_key(k) <==> before.entries().contains_key(k)),
        forall|k: Seq<char>|
            k != key && #[trigger] before.entries().contains_key(k) ==> after.entries()[k] == before.entries()[k],
{
}

/// After a key is deleted, it is no longer held, and every other key
/// reads as before.
pub proof fn law_read_after_delete<ENTITY, R: Repository<ENTITY>>(before: R, after: R, key: Seq<char>)
    requires
        after.entries() == before.entries().remove(key),
    ensures
        !after.entries().contains_key(key),
        forall|k: Seq<char>|
            k != key ==> (#[trigger] after.entries().contains_key(k) <==> before.entries().contains_key(k)),
        forall|k: Seq<char>|
            k != key && #[trigger] before.entries().contains_key(k) ==> after.entries()[k] == before.entries()[k],
{
}

/// Deleting the key that a write put into a repository that did not hold
/// it gives back the repository as it was.
pub proof fn law_delete_undoes_write<ENTITY, R: Repository<ENTITY>>(
    before: R,
    written: R,
    after: R,
    key: Seq<char>,
    e: ENTITY,
)
    requires
        !before.entries().contains_key(key),
        written.entries() == before.entries().insert(key, e),
        after.entries() == written.entries().remove(key),
    ensures
        after.entries() == before.entries(),
{
    assert(after.entries() =~= before.entries());
}

/// Whether `c` is a lower-case hexadecimal digit.
pub open spec fn is_lower_hex(c: char) -> bool {
    ('0' <= c && c <= '9') || ('a' <= c && c <= 'f')
}

/// Whether `s` is a version-4 UUID written in its hyphenated lower-case
/// form: 32 hexadecimal digits in groups of 8, 4, 4, 4 and 12 joined by
/// `-`, whose version digit is `4` and whose variant digit is one of
/// `8`, `9`, `a`, `b`.
pub open spec fn is_uuid_v4_text(s: Seq<char>) -> bool {
    &&& s.len() == 36
    &&& forall|i: int|
        0 <= i < 36 ==> if i == 8 || i == 13 || i == 18 || i == 23 {
            #[trigger] s[i] == '-'
        } else {
            is_lower_hex(s[i])
        }
    &&& s[14] == '4'
    &&& (s[19] == '8' || s[19] == '9' || s[19] == 'a' || s[19] == 'b')
}

/// A fresh random key: uuid's `Uuid::new_v4`, written by its `Display`,
/// which gives the hyphenated lower-case form. `new_v4` sets the version
/// digit to 4 and the variant bits to `10`; the other digits come from the
/// operating system's random source, and nothing more is stated of them.
/// It panics if that source fails, which no argument can rule out.
#[verifier::external_body]
fn new_key() -> (r: String)
    ensures
        is_uuid_v4_text(r@),
{
    uuid::Uuid::new_v4().to_string()
}

/// Whether no key occurs twice.
pub open spec fn keys_unique<ENTITY>(s: Seq<(String, ENTITY)>) -> bool {
    forall|i: int, j: int| 0 <= i < j < s.len() ==> (#[trigger] s[i]).0@ != (#[trigger] s[j]).0@
}

/// Whether `k` is the key at some position.
pub open spec fn has_key<ENTITY>(s: Seq<(String, ENTITY)>, k: Seq<char>) -> bool {
    exists|i: int| 0 <= i < s.len() && (#[trigger] s[i]).0@ == k
}

/// The entities of a list of keyed entries, by key.
pub open spec fn entries_map<ENTITY>(s: Seq<(String, ENTITY)>) -> Map<Seq<char>, ENTITY> {
    Map::new(
        |k: Seq<char>| has_key(s, k),
        |k: Seq<char>| s[choose|i: int| 0 <= i < s.len() && (#[trigger] s[i]).0@ == k].1,
    )
}

/// In a list with unique keys, the entity under the key at position `i`
/// is the one at position `i`.
pub proof fn lemma_entries_at<ENTITY>(s: Seq<(String, ENTITY)>, i: int)
    requires
        keys_unique(s),
        0 <= i < s.len(),
    ensures
        entries_map(s).contains_key(s[i].0@),
        entries_map(s)[s[i].0@] == s[i].1,
{
    let k = s[i].0@;
    assert(has_key(s, k));
    let j = choose|j: int| 0 <= j < s.len() && (#[trigger] s[j]).0@ == k;
    if j != i {
        if j < i {
            assert(s[j].0@ != s[i].0@);
        } else {
            assert(s[i].0@ != s[j].0@);
        }
    }
}

/// Changing the entity at position `i` keeps the keys distinct and
/// changes only the entity under that position's key.
pub proof fn lemma_entries_set_value<ENTITY>(s: Seq<(String, ENTITY)>, i: int)
    requires
        keys_unique(s),
        0 <= i < s.len(),
    ensures
        forall|v: ENTITY|
            keys_unique(#[trigger] s.update(i, (s[i].0, v))) && entries_map(s.update(i, (s[i].0, v)))
                == entries_map(s).insert(s[i].0@, v),
{
    assert forall|v: ENTITY|
        keys_unique(#[trigger] s.update(i, (s[i].0, v))) && entries_map(s.update(i, (s[i].0, v)))
            == entries_map(s).insert(s[i].0@, v) by {
        let t = s.update(i, (s[i].0, v));
        let k = s[i].0@;
        assert forall|a: int, b: int| 0 <= a < b < t.len() implies (#[trigger] t[a]).0@
            != (#[trigger] t[b]).0@ by {
            assert(s[a].0@ != s[b].0@);
        }
        assert forall|q: Seq<char>| has_key(t, q) <==> has_key(s, q) by {
            if has_key(t, q) {
                let j = choose|j: int| 0 <= j < t.len() && (#[trigger] t[j]).0@ == q;
                assert(s[j].0@ == q);
            }
            if has_key(s, q) {
                let j = choose|j: int| 0 <= j < s.len() && (#[trigger] s[j]).0@ == q;
                assert(t[j].0@ == q);
            }
        }
        assert(has_key(s, k));
        assert forall|q: Seq<char>| #[trigger] has_key(t, q) implies entries_map(t)[q]
            == entries_map(s).insert(k, v)[q] by {
            let j = choose|j: int| 0 <= j < t.len() && (#[trigger] t[j]).0@ == q;
            lemma_entries_at(t, j);
            if j != i {
                lemma_entries_at(s, j);
            }
        }
        assert(entries_map(t) =~= entries_map(s).insert(k, v));
    }
}

/// The table that a list of keyed entities stands for: each entity under
/// its key, a later entity replacing an earlier one under the same key.
pub open spec fn table_of<ENTITY>(s: Seq<Entity<ENTITY, String>>) -> Map<Seq<char>, ENTITY>
    decreases s.len(),
{
    if s.len() == 0 {
        Map::empty()
    } else {
        table_of(s.drop_last()).insert(s.last().id@, s.last().entity)
    }
}

/// Each entity of the table of a list is one of the list's entities, the
/// one at a position with its key.
pub proof fn lemma_table_of_value<ENTITY>(s: Seq<Entity<ENTITY, String>>, k: Seq<char>)
    requires
        table_of(s).contains_key(k),
    ensures
        exists|i: int| 0 <= i < s.len() && (#[trigger] s[i]).id@ == k && s[i].entity == table_of(s)[k],
    decreases s.len(),
{
    let n = s.len() - 1;
    if s[n].id@ == k {
        assert(s[n].id@ == k && s[n].entity == table_of(s)[k]);
    } else {
        lemma_table_of_value(s.drop_last(), k);
        let i = choose|i: int|
            0 <= i < s.drop_last().len() && (#[trigger] s.drop_last()[i]).id@ == k && s.drop_last()[i].entity
                == table_of(s.drop_last())[k];
        assert(s[i] == s.drop_last()[i]);
    }
}

/// In a list whose keys are distinct, the table holds each entity of the
/// list under its key.
pub proof fn lemma_table_of_distinct<ENTITY>(s: Seq<Entity<ENTITY, String>>, i: int)
    requires
        forall|a: int, b: int| 0 <= a < b < s.len() ==> (#[trigger] s[a]).id@ != (#[trigger] s[b]).id@,
        0 <= i < s.len(),
    ensures
        table_of(s).contains_key(s[i].id@),
        table_of(s)[s[i].id@] == s[i].entity,
    decreases s.len(),
{
    let n = s.len() - 1;
    if i != n {
        let t = s.drop_last();
        assert forall|a: int, b: int| 0 <= a < b < t.len() implies (#[trigger] t[a]).id@ != (#[trigger] t[b]).id@ by {
            assert(t[a] == s[a] && t[b] == s[b]);
        }
        lemma_table_of_distinct(t, i);
        assert(t[i] == s[i]);
        assert(s[i].id@ != s[n].id@);
    }
}

/// Loading the entities that a listing of a repository gave, each read
/// back as it was listed, rebuilds the repository's table.
pub proof fn law_load_after_list<ENTITY>(
    table: Map<Seq<char>, ENTITY>,
    listed: Seq<Entity<&ENTITY, &str>>,
    loaded: Seq<Entity<ENTITY, String>>,
)
    requires
        lists_entries(listed, table),
        loaded.len() == listed.len(),
        forall|i: int|
            0 <= i < loaded.len() ==> (#[trigger] loaded[i]).id@ == listed[i].id@ && loaded[i].entity == *listed[i].entity,
    ensures
        table_of(loaded) == table,
{
    assert forall|a: int, b: int| 0 <= a < b < loaded.len() implies (#[trigger] loaded[a]).id@ != (#[trigger] loaded[b]).id@ by {
        assert(listed[a].id@ != listed[b].id@);
    }
    assert forall|k: Seq<char>| table_of(loaded).contains_key(k) <==> table.contains_key(k) by {
        if table_of(loaded).contains_key(k) {
            lemma_table_of_value(loaded, k);
            let i = choose|i: int| 0 <= i < loaded.len() && (#[trigger] loaded[i]).id@ == k && loaded[i].entity == table_of(loaded)[k];
            assert(listed[i].id@ == k);
        }
        if table.contains_key(k) {
            let i = choose|i: int| 0 <= i < listed.len() && (#[trigger] listed[i]).id@ == k;
            assert(loaded[i].id@ == k);
            lemma_table_of_distinct(loaded, i);
        }
    }
    assert forall|k: Seq<char>| #[trigger] table.contains_key(k) implies table_of(loaded)[k] == table[k] by {
        let i = choose|i: int| 0 <= i < listed.len() && (#[trigger] listed[i]).id@ == k;
        assert(loaded[i].id@ == k);
        lemma_table_of_distinct(loaded, i);
    }
    assert(table_of(loaded) =~= table);
}

/// A repository held in memory, as keyed entries with distinct keys.
pub struct RepositoryHashMapImpl<ENTITY> {
    entities: Vec<(String, ENTITY)>,
}

impl<ENTITY> RepositoryHashMapImpl<ENTITY> {
    /// An empty repository.
    pub fn new() -> (r: RepositoryHashMapImpl<ENTITY>)
        ensures
            r.wf(),
            r.entries() == Map::<Seq<char>, ENTITY>::empty(),
    {
        let r = RepositoryHashMapImpl { entities: Vec::new() };
        assert(r.entries() =~= Map::<Seq<char>, ENTITY>::empty());
        r
    }

    /// Replaces the whole table with the given keyed entities; where a key
    /// occurs twice, the later entity is kept.
    pub fn load_table(&mut self, table: Vec<Entity<ENTITY, String>>)
        ensures
            final(self).wf(),
            final(self).entries() == table_of(table@),
    {
        let ghost orig = table@;
        let mut table = table;
        let total: usize = table.len();
        self.entities = Vec::new();
        let mut i: usize = 0;
        proof {
            assert(orig.subrange(0, 0) =~= Seq::<Entity<ENTITY, String>>::empty());
            assert(orig.subrange(0, orig.len() as int) =~= orig);
            assert(self.entries() =~= Map::<Seq<char>, ENTITY>::empty());
        }
        while table.len() > 0
            invariant
                self.wf(),
                i <= orig.len(),
                orig.len() == total,
                table@ == orig.subrange(i as int, orig.len() as int),
                self.entries() == table_of(orig.subrange(0, i as int)),
            decreases table@.len(),
        {
            assert(table@.len() == orig.len() - i);
            let Entity { id, entity } = table.remove(0);
            proof {
                assert(orig.subrange(0, i + 1).drop_last() =~= orig.subrange(0, i as int));
                assert(orig.subrange(0, i + 1).last() == orig[i as int]);
                assert(table@ =~= orig.subrange(i + 1, orig.len() as int));
            }
            self.put(id, entity);
            i = i + 1;
        }
        proof {
            assert(orig.subrange(0, i as int) =~= orig);
        }
    }

    /// The position of `key`, if it is held.
    fn find(&self, key: &str) -> (r: Option<usize>)
        ensures
            match r {
                Some(i) => i < self.entities@.len() && self.entities@[i as int].0@ == key@,
                None => !has_key(self.entities@, key@),
            },
    {
        let mut i: usize = 0;
        while i < self.entities.len()
            invariant
                i <= self.entities@.len(),
                forall|j: int| 0 <= j < i ==> (#[trigger] self.entities@[j]).0@ != key@,
            decreases self.entities@.len() - i,
        {
            if str_equal(self.entities[i].0.as_str(), key) {
                return Some(i);
            }
            i = i + 1;
        }
        None
    }

    /// Stores `entity` under `key`, replacing what was there.
    fn put(&mut self, key: String, entity: ENTITY)
        requires
            old(self).wf(),
        ensures
            final(self).wf(),
            final(self).entries() == old(self).entries().insert(key@, entity),
    {
        let ghost old_s = self.entities@;
        match self.find(key.as_str()) {
            Some(i) => {
                let ghost k = key@;
                self.entities.set(i, (key, entity));
                proof {
                    let s = self.entities@;
                    assert(s == old_s.update(i as int, s[i as int]));
                    assert forall|a: int, b: int| 0 <= a < b < s.len() implies (#[trigger] s[a]).0@
                        != (#[trigger] s[b]).0@ by {
                        if a != i && b != i {
                            assert(old_s[a].0@ != old_s[b].0@);
                        } else if a == i {
                            assert(old_s[a].0@ != old_s[b].0@);
                        } else {
                            assert(old_s[a].0@ != old_s[b].0@);
                        }
                    }
                    assert forall|q: Seq<char>| has_key(s, q) <==> has_key(old_s, q) || q == k by {
                        if has_key(old_s, q) {
                            let j = choose|j: int| 0 <= j < old_s.len() && (#[trigger] old_s[j]).0@ == q;
                            assert(s[j].0@ == q);
                        }
                        if has_key(s, q) {
                            let j = choose|j: int| 0 <= j < s.len() && (#[trigger] s[j]).0@ == q;
                            if j != i {
                                assert(old_s[j].0@ == q);
                            }
                        }
                    }
                    assert forall|q: Seq<char>| #[trigger] has_key(s, q) implies entries_map(s)[q]
                        == entries_map(old_s).insert(k, entity)[q] by {
                        let j = choose|j: int| 0 <= j < s.len() && (#[trigger] s[j]).0@ == q;
                        lemma_entries_at(s, j);
                        if j != i {
                            lemma_entries_at(old_s, j);
                        }
                    }
                    assert(entries_map(s) =~= entries_map(old_s).insert(k, entity));
                }
            },
            None => {
                let ghost k = key@;
                self.entities.push((key, entity));
                proof {
                    let s = self.entities@;
                    let n = old_s.len() as int;
                    assert forall|a: int, b: int| 0 <= a < b < s.len() implies (#[trigger] s[a]).0@
                        != (#[trigger] s[b]).0@ by {
                        if b == n {
                            assert(old_s[a] == s[a]);
                        } else {
                            assert(old_s[a].0@ != old_s[b].0@);
                        }
                    }
                    assert forall|q: Seq<char>| has_key(s, q) <==> has_key(old_s, q) || q == k by {
                        if has_key(old_s, q) {
                            let j = choose|j: int| 0 <= j < old_s.len() && (#[trigger] old_s[j]).0@ == q;
                            assert(s[j].0@ == q);
                        }
                        if q == k {
                            assert(s[n].0@ == q);
                        }
                        if has_key(s, q) {
                            let j = choose|j: int| 0 <= j < s.len() && (#[trigger] s[j]).0@ == q;
                            if j != n {
                                assert(old_s[j].0@ == q);
                            }
                        }
                    }
                    assert forall|q: Seq<char>| #[trigger] has_key(s, q) implies entries_map(s)[q]
                        == entries_map(old_s).insert(k, entity)[q] by {
                        let j = choose|j: int| 0 <= j < s.len() && (#[trigger] s[j]).0@ == q;
                        lemma_entries_at(s, j);
                        if j != n {
                            lemma_entries_at(old_s, j);
                        }
                    }
                    assert(entries_map(s) =~= entries_map(old_s).insert(k, entity));
                }
            },
        }
    }
}

impl<ENTITY> Repository<ENTITY> for RepositoryHashMapImpl<ENTITY> {
    closed spec fn entries(&self) -> Map<Seq<char>, ENTITY> {
        entries_map(self.entities@)
    }

    closed spec fn wf(&self) -> bool {
        keys_unique(self.entities@)
    }

    fn create(&mut self, entity: ENTITY) -> (key: String)
        ensures
            is_uuid_v4_text(key@),
    {
        let key = new_key();
        let ghost k = key@;
        let copy = key.clone();
        self.put(copy, entity);
        key
    }

    fn get(&self, key: &str) -> (r: &ENTITY) {
        match self.find(key) {
            Some(i) => {
                proof {
                    lemma_entries_at(self.entities@, i as int);
                }
                &self.entities[i].1
            },
            None => {
                proof {
                    assert(false);
                }
                &self.entities[0].1
            },
        }
    }

    fn list(&self) -> (r: Vec<Entity<&ENTITY, &str>>) {
        let mut out: Vec<Entity<&ENTITY, &str>> = Vec::new();
        let mut i: usize = 0;
        while i < self.entities.len()
            invariant
                i <= self.entities@.len(),
                keys_unique(self.entities@),
                out@.len() == i,
                forall|j: int|
                    0 <= j < i ==> (#[trigger] out@[j]).id@ == self.entities@[j].0@ && *out@[j].entity
                        == self.entities@[j].1,
            decreases self.entities@.len() - i,
        {
            let e = &self.entities[i];
            out.push(Entity::new(e.0.as_str(), &e.1));
            i = i + 1;
        }
        proof {
            let s = self.entities@;
            assert forall|j: int| 0 <= j < out@.len() implies self.entries().contains_key(
                (#[trigger] out@[j]).id@,
            ) && self.entries()[out@[j].id@] == *out@[j].entity by {
                lemma_entries_at(s, j);
            }
            assert forall|a: int, b: int| 0 <= a < b < out@.len() implies (#[trigger] out@[a]).id@
                != (#[trigger] out@[b]).id@ by {
                assert(s[a].0@ != s[b].0@);
            }
            assert forall|k: Seq<char>| #[trigger] self.entries().contains_key(k) implies exists|j: int|
                0 <= j < out@.len() && (#[trigger] out@[j]).id@ == k by {
                let j = choose|j: int| 0 <= j < s.len() && (#[trigger] s[j]).0@ == k;
                assert(out@[j].id@ == k);
            }
        }
        out
    }

    fn update(&mut self, key: String, entity: ENTITY) {
        self.put(key, entity);
    }

    fn delete(&mut self, key: &str) {
        let ghost old_s = self.entities@;
        match self.find(key) {
            Some(i) => {
                self.entities.remove(i);
                proof {
                    let s = self.entities@;
                    assert forall|a: int, b: int| 0 <= a < b < s.len() implies (#[trigger] s[a]).0@
                        != (#[trigger] s[b]).0@ by {
                        let oa = if a < i { a } else { a + 1 };
                        let ob = if b < i { b } else { b + 1 };
                        assert(s[a] == old_s[oa]);
                        assert(s[b] == old_s[ob]);
                        assert(old_s[oa].0@ != old_s[ob].0@);
                    }
                    assert forall|q: Seq<char>| has_key(s, q) <==> has_key(old_s, q) && q != key@ by {
                        if has_key(s, q) {
                            let j = choose|j: int| 0 <= j < s.len() && (#[trigger] s[j]).0@ == q;
                            let oj = if j < i { j } else { j + 1 };
                            assert(s[j] == old_s[oj]);
                            assert(old_s[oj].0@ != old_s[i as int].0@ || oj == i);
                        }
                        if has_key(old_s, q) && q != key@ {
                            let j = choose|j: int| 0 <= j < old_s.len() && (#[trigger] old_s[j]).0@ == q;
                            if j < i {
                                assert(s[j].0@ == q);
                            } else {
                                assert(j != i);
                                assert(s[j - 1].0@ == q);
                            }
                        }
                    }
                    assert forall|q: Seq<char>| #[trigger] has_key(s, q) implies entries_map(s)[q]
                        == entries_map(old_s)[q] by {
                        let j = choose|j: int| 0 <= j < s.len() && (#[trigger] s[j]).0@ == q;
                        let oj = if j < i { j } else { j + 1 };
                        assert(s[j] == old_s[oj]);
                        lemma_entries_at(s, j);
                        lemma_entries_at(old_s, oj);
                    }
                    assert(entries_map(s) =~= entries_map(old_s).remove(key@));
                }
            },
            None => {
                assert(entries_map(old_s) =~= entries_map(old_s).remove(key@));
            },
        }
    }
}

impl<ENTITY> MutRepository<ENTITY> for RepositoryHashMapImpl<ENTITY> {
    fn get_mut(&mut self, key: &str) -> (r: &mut ENTITY) {
        let i = match self.find(key) {
            Some(i) => i,
            None => {
                proof {
                    assert(false);
                }
                0
            },
        };
        proof {
            lemma_entries_at(self.entities@, i as int);
            lemma_entries_set_value(self.entities@, i as int);
        }
        &mut self.entities[i].1
    }
}

} // verus!
