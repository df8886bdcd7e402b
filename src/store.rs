use vstd::prelude::*;
use crate::markup::same_text;

verus! {

/// The character of a decimal digit.
pub open spec fn digit_char(d: nat) -> char {
    if d == 0 { '0' } else if d == 1 { '1' } else if d == 2 { '2' } else if d == 3 { '3' }
    else if d == 4 { '4' } else if d == 5 { '5' } else if d == 6 { '6' } else if d == 7 { '7' }
    else if d == 8 { '8' } else { '9' }
}

/// The decimal numeral of `n`, without leading zeros.
pub open spec fn decimal(n: nat) -> Seq<char>
    decreases n,
{
    if n < 10 {
        seq![digit_char(n)]
    } else {
        decimal(n / 10).push(digit_char(n % 10))
    }
}

/// The text of one decimal digit.
fn digit_text(d: u64) -> (r: &'static str)
    requires
        d < 10,
    ensures
        r@ == seq![digit_char(d as nat)],
{
    proof {
        reveal_strlit("0");
        reveal_strlit("1");
        reveal_strlit("2");
        reveal_strlit("3");
        reveal_strlit("4");
        reveal_strlit("5");
        reveal_strlit("6");
        reveal_strlit("7");
        reveal_strlit("8");
        reveal_strlit("9");
    }
    if d == 0 { "0" } else if d == 1 { "1" } else if d == 2 { "2" } else if d == 3 { "3" }
    else if d == 4 { "4" } else if d == 5 { "5" } else if d == 6 { "6" } else if d == 7 { "7" }
    else if d == 8 { "8" } else { "9" }
}

/// The decimal numeral of `n`.
pub fn to_decimal(n: u64) -> (r: String)
    ensures
        r@ == decimal(n as nat),
    decreases n,
{
    if n < 10 {
        String::from_str(digit_text(n))
    } else {
        let mut s = to_decimal(n / 10);
        s.append(digit_text(n % 10));
        s
    }
}

/// What the hasher makes of a string.
pub uninterp spec fn content_hash(s: Seq<char>) -> u64;

/// Relies on std::hash::DefaultHasher, made by `new`, hashing a `str`:
/// every hasher made by `new` starts alike, so the digest depends on the
/// characters alone.
#[verifier::external_body]
fn hash_text(s: &str) -> (r: u64)
    ensures
        r == content_hash(s@),
{
    let mut hasher = std::hash::DefaultHasher::new();
    std::hash::Hash::hash(s, &mut hasher);
    std::hash::Hasher::finish(&hasher)
}

/// The identity of a feed or post whose address is `s`.
pub open spec fn content_id(s: Seq<char>) -> Seq<char> {
    decimal(content_hash(s) as nat)
}

/// The stable identity of a feed or post, derived from its address: the
/// decimal digest of the address.
pub fn identity_of(discriminant: &str) -> (r: String)
    ensures
        r@ == content_id(discriminant@),
{
    to_decimal(hash_text(discriminant))
}

/// Equal addresses have equal identities.
pub proof fn lemma_identity_stable(a: Seq<char>, b: Seq<char>)
    requires
        a == b,
    ensures
        content_id(a) == content_id(b),
{
}

/// Why a record could not be read.
#[derive(Clone, Copy, Debug, PartialEq, Eq, Structural)]
pub enum StoreError {
    /// No record is stored under the key.
    NotFound,
    /// The stored record could not be decoded.
    Corrupt,
}

/// The map after a create-if-absent write of `v` under `k`: a key that is
/// present keeps its record.
pub open spec fn saved<T>(m: Map<Seq<char>, T>, k: Seq<char>, v: T) -> Map<Seq<char>, T> {
    if m.dom().contains(k) {
        m
    } else {
        m.insert(k, v)
    }
}

/// Records keyed by identity.
pub struct Store<T> {
    records: Vec<(String, T)>,
}

/// The map that a list of keyed records stands for.
pub open spec fn records_map<T>(rs: Seq<(String, T)>) -> Map<Seq<char>, T>
    decreases rs.len(),
{
    if rs.len() == 0 {
        Map::empty()
    } else {
        records_map(rs.drop_last()).insert(rs.last().0@, rs.last().1)
    }
}

/// No two records share a key.
pub open spec fn keys_unique<T>(rs: Seq<(String, T)>) -> bool {
    forall|i: int, j: int| 0 <= i < rs.len() && 0 <= j < rs.len() && i != j ==> rs[i].0@ != rs[j].0@
}

proof fn lemma_map_dom<T>(rs: Seq<(String, T)>, k: Seq<char>)
    ensures
        records_map(rs).dom().contains(k) <==> exists|i: int| 0 <= i < rs.len() && rs[i].0@ == k,
    decreases rs.len(),
{
    if rs.len() > 0 {
        lemma_map_dom(rs.drop_last(), k);
        if records_map(rs.drop_last()).dom().contains(k) {
            let i = choose|i: int| 0 <= i < rs.drop_last().len() && rs.drop_last()[i].0@ == k;
            assert(rs[i].0@ == k);
        }
        if exists|i: int| 0 <= i < rs.len() && rs[i].0@ == k {
            let i = choose|i: int| 0 <= i < rs.len() && rs[i].0@ == k;
            if i < rs.len() - 1 {
                assert(rs.drop_last()[i].0@ == k);
            }
        }
    }
}

proof fn lemma_map_at<T>(rs: Seq<(String, T)>, i: int)
    requires
        keys_unique(rs),
        0 <= i < rs.len(),
    ensures
        records_map(rs).dom().contains(rs[i].0@),
        records_map(rs)[rs[i].0@] == rs[i].1,
    decreases rs.len(),
{
    if i < rs.len() - 1 {
        let d = rs.drop_last();
        assert(d[i] == rs[i]);
        assert(keys_unique(d));
        lemma_map_at(d, i);
        assert(rs.last().0@ != rs[i].0@);
    }
}

proof fn lemma_map_update<T>(rs: Seq<(String, T)>, i: int, p: (String, T))
    requires
        keys_unique(rs),
        0 <= i < rs.len(),
        p.0@ == rs[i].0@,
    ensures
        keys_unique(rs.update(i, p)),
        records_map(rs.update(i, p)) == records_map(rs).insert(p.0@, p.1),
    decreases rs.len(),
{
    let u = rs.update(i, p);
    let v = p.1;
    if i == rs.len() - 1 {
        assert(u.drop_last() =~= rs.drop_last());
        assert(records_map(u) =~= records_map(rs).insert(rs[i].0@, v));
    } else {
        let d = rs.drop_last();
        assert(keys_unique(d));
        assert(d[i] == rs[i]);
        lemma_map_update(d, i, p);
        assert(u.drop_last() =~= d.update(i, p));
        assert(rs.last().0@ != rs[i].0@);
        assert(records_map(u) =~= records_map(rs).insert(rs[i].0@, v));
    }
}

proof fn lemma_map_remove<T>(rs: Seq<(String, T)>, i: int)
    requires
        keys_unique(rs),
        0 <= i < rs.len(),
    ensures
        keys_unique(rs.remove(i)),
        records_map(rs.remove(i)) == records_map(rs).remove(rs[i].0@),
    decreases rs.len(),
{
    let u = rs.remove(i);
    let k = rs[i].0@;
    assert forall|a: int, b: int| 0 <= a < u.len() && 0 <= b < u.len() && a != b implies u[a].0@
        != u[b].0@ by {
        let a0 = if a < i { a } else { a + 1 };
        let b0 = if b < i { b } else { b + 1 };
        assert(u[a] == rs[a0] && u[b] == rs[b0]);
    }
    if i == rs.len() - 1 {
        assert(u =~= rs.drop_last());
        lemma_map_dom(rs.drop_last(), k);
        if records_map(rs.drop_last()).dom().contains(k) {
            let j = choose|j: int| 0 <= j < rs.drop_last().len() && rs.drop_last()[j].0@ == k;
            assert(rs[j].0@ == k);
        }
        assert(records_map(u) =~= records_map(rs).remove(k));
    } else {
        let d = rs.drop_last();
        assert(keys_unique(d));
        assert(d[i] == rs[i]);
        lemma_map_remove(d, i);
        assert(u.drop_last() =~= d.remove(i));
        assert(u.last() == rs.last());
        assert(rs.last().0@ != k);
        assert(records_map(u) =~= records_map(rs).remove(k));
    }
}

impl<T> View for Store<T> {
    type V = Map<Seq<char>, T>;

    closed spec fn view(&self) -> Map<Seq<char>, T> {
        records_map(self.records@)
    }
}

impl<T> Store<T> {
    /// Every key is stored once.
    pub closed spec fn wf(&self) -> bool {
        keys_unique(self.records@)
    }

    /// A store without records.
    pub fn new() -> (r: Store<T>)
        ensures
            r.wf(),
            r@ == Map::<Seq<char>, T>::empty(),
    {
        Store { records: Vec::new() }
    }

    /// The position of the record stored under `key`.
    fn position(&self, key: &str) -> (r: Option<usize>)
        requires
            self.wf(),
        ensures
            r is None <==> !self@.dom().contains(key@),
            r matches Some(i) ==> i < self.records@.len() && self.records@[i as int].0@ == key@,
    {
        let mut i: usize = 0;
        while i < self.records.len()
            invariant
                i <= self.records@.len(),
                forall|j: int| 0 <= j < i ==> self.records@[j].0@ != key@,
            decreases self.records@.len() - i,
        {
            if same_text(self.records[i].0.as_str(), key) {
                proof {
                    lemma_map_dom(self.records@, key@);
                }
                return Some(i);
            }
            i = i + 1;
        }
        proof {
            lemma_map_dom(self.records@, key@);
        }
        None
    }

    /// Whether a record is stored under `key`.
    pub fn contains(&self, key: &str) -> (r: bool)
        requires
            self.wf(),
        ensures
            r == self@.dom().contains(key@),
    {
        self.position(key).is_some()
    }

    /// Stores `record` under `key` unless a record is stored there already,
    /// in which case nothing changes: the first write wins. Returns whether
    /// the record was written.
    pub fn save(&mut self, key: String, record: T) -> (written: bool)
        requires
            old(self).wf(),
        ensures
            final(self).wf(),
            written == !old(self)@.dom().contains(key@),
            final(self)@ == saved(old(self)@, key@, record),
    {
        match self.position(key.as_str()) {
            Some(_) => false,
            None => {
                let ghost kv = key@;
                proof {
                    lemma_map_dom(self.records@, key@);
                }
                self.records.push((key, record));
                proof {
                    assert(self.records@.drop_last() =~= old(self).records@);
                }
                true
            },
        }
    }

    /// Stores `record` under `key`, replacing what was stored there.
    pub fn put(&mut self, key: String, record: T)
        requires
            old(self).wf(),
        ensures
            final(self).wf(),
            final(self)@ == old(self)@.insert(key@, record),
    {
        match self.position(key.as_str()) {
            Some(i) => {
                let pair = (key, record);
                proof {
                    lemma_map_update(self.records@, i as int, pair);
                }
                self.records.set(i, pair);
            },
            None => {
                proof {
                    lemma_map_dom(self.records@, key@);
                }
                self.records.push((key, record));
                proof {
                    assert(self.records@.drop_last() =~= old(self).records@);
                }
            },
        }
    }

    /// Takes the record stored under `key` out of the store.
    pub fn remove(&mut self, key: &str) -> (r: Option<T>)
        requires
            old(self).wf(),
        ensures
            final(self).wf(),
            final(self)@ == old(self)@.remove(key@),
            old(self)@.dom().contains(key@) ==> r == Some(old(self)@[key@]),
            !old(self)@.dom().contains(key@) ==> r is None,
    {
        match self.position(key) {
            Some(i) => {
                proof {
                    lemma_map_at(self.records@, i as int);
                    lemma_map_remove(self.records@, i as int);
                }
                let (_, record) = self.records.remove(i);
                Some(record)
            },
            None => {
                proof {
                    assert(old(self)@.remove(key@) =~= old(self)@);
                }
                None
            },
        }
    }

    /// The record stored under `key`.
    pub fn load(&self, key: &str) -> (r: Result<&T, StoreError>)
        requires
            self.wf(),
        ensures
            self@.dom().contains(key@) ==> r == Ok::<&T, StoreError>(&self@[key@]),
            !self@.dom().contains(key@) ==> r == Err::<&T, StoreError>(StoreError::NotFound),
    {
        match self.position(key) {
            Some(i) => {
                proof {
                    lemma_map_at(self.records@, i as int);
                }
                Ok(&self.records[i].1)
            },
            None => Err(StoreError::NotFound),
        }
    }
}

/// Saving twice under a new key keeps the first record: after saving `v1`
/// and then `v2` under `k`, loading `k` finds `v1`, and the second save
/// changed nothing.
pub proof fn lemma_save_keeps_first<T>(m: Map<Seq<char>, T>, k: Seq<char>, v1: T, v2: T)
    requires
        !m.dom().contains(k),
    ensures
        saved(saved(m, k, v1), k, v2) == saved(m, k, v1),
        saved(saved(m, k, v1), k, v2).dom().contains(k),
        saved(saved(m, k, v1), k, v2)[k] == v1,
{
}

} // verus!
