//! The expiring key-value store: a mapping from string key to a typed
//! record, generic over the record type so one container backs both the
//! grant table and the token table.
//!
//! A store is viewed as a `Map<Seq<char>, T>`; every operation's contract is
//! stated against that view. Stores are explicit instances constructed at
//! startup and passed to whatever serves requests, so each test can build an
//! isolated store of its own.

use vstd::prelude::*;

verus! {

/// The record held in the token table: the metadata of an issued access
/// token, keyed by the hash of the token string, never the plaintext.
#[derive(Debug)]
pub struct TokenHash {
    /// Absolute timestamp (seconds since epoch) after which the token is
    /// invalid.
    pub expires_at: i64,
}

/// A simple in-memory table from string key to record, used for both the
/// grant table and the token table.
pub struct DummyDB<T> {
    table: Vec<(String, T)>,
}

/// The map that a sequence of key-record pairs denotes; a later pair with
/// the same key overrides an earlier one.
spec fn kv_map<T>(s: Seq<(String, T)>) -> Map<Seq<char>, T>
    decreases s.len(),
{
    if s.len() == 0 {
        Map::empty()
    } else {
        kv_map(s.drop_last()).insert(s.last().0@, s.last().1)
    }
}

/// Whether the keys of a sequence of pairs are pairwise distinct.
spec fn unique_keys<T>(s: Seq<(String, T)>) -> bool {
    forall|i: int, j: int| 0 <= i < j < s.len() ==> s[i].0@ != s[j].0@
}

/// A key is in the denoted map exactly when some pair carries it.
proof fn lemma_kv_contains<T>(s: Seq<(String, T)>, k: Seq<char>)
    ensures
        kv_map(s).contains_key(k) <==> exists|i: int| 0 <= i < s.len() && s[i].0@ == k,
    decreases s.len(),
{
    if s.len() > 0 {
        lemma_kv_contains(s.drop_last(), k);
        if kv_map(s).contains_key(k) && s.last().0@ != k {
            let i = choose|i: int| 0 <= i < s.drop_last().len() && s.drop_last()[i].0@ == k;
            assert(s[i].0@ == k);
        }
        if exists|i: int| 0 <= i < s.len() && s[i].0@ == k {
            let i = choose|i: int| 0 <= i < s.len() && s[i].0@ == k;
            if i < s.len() - 1 {
                assert(s.drop_last()[i].0@ == k);
            }
        }
    }
}

/// Under distinct keys, the denoted map sends each pair's key to its record.
proof fn lemma_kv_get<T>(s: Seq<(String, T)>, i: int)
    requires
        unique_keys(s),
        0 <= i < s.len(),
    ensures
        kv_map(s).contains_key(s[i].0@),
        kv_map(s)[s[i].0@] == s[i].1,
    decreases s.len(),
{
    if i < s.len() - 1 {
        assert(unique_keys(s.drop_last()));
        lemma_kv_get(s.drop_last(), i);
        assert(s[i].0@ != s.last().0@);
    }
}

/// Dropping a key's pair from the sequence removes that key from the map.
proof fn lemma_kv_remove<T>(s: Seq<(String, T)>, i: int)
    requires
        unique_keys(s),
        0 <= i < s.len(),
    ensures
        unique_keys(s.remove(i)),
        kv_map(s.remove(i)) == kv_map(s).remove(s[i].0@),
    decreases s.len(),
{
    let k = s[i].0@;
    if i == s.len() - 1 {
        assert(s.remove(i) =~= s.drop_last());
        lemma_kv_contains(s.drop_last(), k);
        assert(!kv_map(s.drop_last()).contains_key(k));
        assert(kv_map(s.drop_last()) =~= kv_map(s).remove(k));
    } else {
        assert(unique_keys(s.drop_last()));
        lemma_kv_remove(s.drop_last(), i);
        assert(s.remove(i).drop_last() =~= s.drop_last().remove(i));
        assert(s.remove(i).last() == s.last());
        assert(k != s.last().0@);
        assert(kv_map(s.remove(i)) =~= kv_map(s).remove(k));
    }
}

/// Appending a pair inserts its key into the map.
proof fn lemma_kv_push<T>(s: Seq<(String, T)>, pk: String, data: T)
    ensures
        kv_map(s.push((pk, data))) == kv_map(s).insert(pk@, data),
{
    assert(s.push((pk, data)).drop_last() =~= s);
}

impl<T> View for DummyDB<T> {
    type V = Map<Seq<char>, T>;

    closed spec fn view(&self) -> Map<Seq<char>, T> {
        kv_map(self.table@)
    }
}

impl<T> DummyDB<T> {
    /// The store's internal invariant: no key appears in two entries, so the
    /// table denotes its map faithfully.
    pub closed spec fn wf(&self) -> bool {
        unique_keys(self.table@)
    }

    fn new() -> (db: Self)
        ensures
            db.wf(),
            db@ == Map::<Seq<char>, T>::empty(),
    {
        DummyDB { table: Vec::new() }
    }

    /// The index of the entry carrying the given key, if any.
    fn position_of(&self, pk: &String) -> (r: Option<usize>)
        requires
            self.wf(),
        ensures
            match r {
                Some(i) => i < self.table@.len() && self.table@[i as int].0@ == pk@,
                None => !self@.contains_key(pk@),
            },
    {
        let n = self.table.len();
        let mut i: usize = 0;
        while i < n
            invariant
                i <= n,
                n == self.table@.len(),
                forall|j: int| 0 <= j < i ==> self.table@[j].0@ != pk@,
            decreases n - i,
        {
            if self.table[i].0 == *pk {
                return Some(i);
            }
            i = i + 1;
        }
        proof {
            lemma_kv_contains(self.table@, pk@);
        }
        None
    }

    /// Add an entry to the db, overwriting any entry under the same key.
    pub fn insert(&mut self, pk: String, data: T)
        requires
            old(self).wf(),
        ensures
            final(self).wf(),
            final(self)@ == old(self)@.insert(pk@, data),
    {
        match self.position_of(&pk) {
            Some(i) => {
                proof {
                    lemma_kv_remove(self.table@, i as int);
                }
                let ghost pre = self.table@;
                self.table.remove(i);
                proof {
                    lemma_kv_push(self.table@, pk, data);
                    assert(kv_map(pre).remove(pk@).insert(pk@, data) =~= kv_map(pre).insert(
                        pk@,
                        data,
                    ));
                    assert forall|a: int, b: int|
                        0 <= a < b < self.table@.push((pk, data)).len() implies self.table@.push(
                        (pk, data),
                    )[a].0@ != self.table@.push((pk, data))[b].0@ by {
                        lemma_kv_contains(self.table@, pk@);
                    }
                }
                self.table.push((pk, data));
            },
            None => {
                proof {
                    lemma_kv_push(self.table@, pk, data);
                    lemma_kv_contains(self.table@, pk@);
                }
                self.table.push((pk, data));
            },
        }
    }

    /// Remove an entry from the db, returning its record if the key was
    /// present.
    pub fn remove(&mut self, pk: String) -> (r: Option<T>)
        requires
            old(self).wf(),
        ensures
            final(self).wf(),
            match r {
                Some(v) => old(self)@.contains_key(pk@) && v == old(self)@[pk@] && final(self)@
                    == old(self)@.remove(pk@),
                None => !old(self)@.contains_key(pk@) && final(self)@ == old(self)@,
            },
    {
        match self.position_of(&pk) {
            Some(i) => {
                proof {
                    lemma_kv_get(self.table@, i as int);
                    lemma_kv_remove(self.table@, i as int);
                }
                let (_, v) = self.table.remove(i);
                Some(v)
            },
            None => None,
        }
    }

    /// Get an entry from the db.
    pub fn get(&self, pk: String) -> (r: Option<&T>)
        requires
            self.wf(),
        ensures
            match r {
                Some(v) => self@.contains_key(pk@) && *v == self@[pk@],
                None => !self@.contains_key(pk@),
            },
    {
        match self.position_of(&pk) {
            Some(i) => {
                proof {
                    lemma_kv_get(self.table@, i as int);
                }
                Some(&self.table[i].1)
            },
            None => None,
        }
    }
}

/// Construct the auth grant store used by a fresh process: empty, ready to
/// be shared with whatever serves requests.
pub fn get_auth_grant_db() -> (db: DummyDB<crate::oauth::AuthGrant>)
    ensures
        db.wf(),
        db@ == Map::<Seq<char>, crate::oauth::AuthGrant>::empty(),
{
    DummyDB::new()
}

/// Construct the token store used by a fresh process: empty.
pub fn get_token_db() -> (db: DummyDB<TokenHash>)
    ensures
        db.wf(),
        db@ == Map::<Seq<char>, TokenHash>::empty(),
{
    DummyDB::new()
}

} // verus!
