//! The record store: an in-memory collection of price records, each carrying
//! a unique 128-bit identifier assigned by the store at creation time.

use vstd::assert_by_contradiction;
use vstd::prelude::*;

verus! {

/// A single price record: an identifier (the 128-bit value of a canonical
/// UUID) and a non-negative integer price.
#[derive(Clone, Copy, Debug, PartialEq, Eq, Structural)]
pub struct Record {
    pub id: u128,
    pub price: u64,
}

/// The one expected failure of a store operation: no record carries the
/// requested identifier.
#[derive(Clone, Copy, Debug, PartialEq, Eq, Structural)]
pub enum StoreError {
    NotFound,
}

/// Some record in `s` carries the identifier `id`.
pub open spec fn contains_id(s: Seq<Record>, id: u128) -> bool {
    exists|i: int| 0 <= i < s.len() && s[i].id == id
}

/// The position of the record carrying `id`; meaningful only when
/// `contains_id(s, id)` holds, and then unique whenever `unique_ids(s)` holds.
pub open spec fn idx_of(s: Seq<Record>, id: u128) -> int {
    choose|i: int| 0 <= i < s.len() && s[i].id == id
}

/// The record carrying `id`, if any.
pub open spec fn lookup(s: Seq<Record>, id: u128) -> Option<Record> {
    if contains_id(s, id) {
        Some(s[idx_of(s, id)])
    } else {
        None
    }
}

/// No two records in `s` share an identifier.
pub open spec fn unique_ids(s: Seq<Record>) -> bool {
    forall|i: int, j: int|
        0 <= i < s.len() && 0 <= j < s.len() && i != j ==> s[i].id != s[j].id
}

/// The owner of the record collection. Its collection always satisfies
/// `unique_ids`, which is enforced as a type invariant.
pub struct Store {
    records: Vec<Record>,
}

impl View for Store {
    type V = Seq<Record>;

    closed spec fn view(&self) -> Seq<Record> {
        self.records@
    }
}

/// When `unique_ids(s)` holds, the position chosen by `idx_of` for the
/// identifier of `s[i]` is `i` itself.
pub proof fn lemma_idx_of_unique(s: Seq<Record>, i: int)
    requires
        unique_ids(s),
        0 <= i < s.len(),
    ensures
        contains_id(s, s[i].id),
        idx_of(s, s[i].id) == i,
        lookup(s, s[i].id) == Some(s[i]),
{
    assert(contains_id(s, s[i].id));
    let k = idx_of(s, s[i].id);
    assert(0 <= k < s.len() && s[k].id == s[i].id);
}

impl Store {
    #[verifier::type_invariant]
    spec fn inv(self) -> bool {
        unique_ids(self@)
    }

    /// A new, empty store.
    pub fn new() -> (s: Store)
        ensures
            s@ == Seq::<Record>::empty(),
    {
        Store { records: Vec::new() }
    }

    /// A snapshot copy of the whole collection, in collection order.
    pub fn list(&self) -> (r: Vec<Record>)
        ensures
            r@ == self@,
            unique_ids(self@),
    {
        proof {
            use_type_invariant(&*self);
        }
        let mut out: Vec<Record> = Vec::new();
        let mut i: usize = 0;
        while i < self.records.len()
            invariant
                i <= self.records.len(),
                out@ == self@.take(i as int),
            decreases self.records.len() - i,
        {
            out.push(self.records[i]);
            proof {
                assert(out@ =~= self@.take(i + 1 as int));
            }
            i += 1;
        }
        proof {
            assert(self@.take(self.records.len() as int) =~= self@);
        }
        out
    }

    /// The record carrying `id`, or `NotFound` when no record does.
    pub fn get(&self, id: u128) -> (r: Result<Record, StoreError>)
        ensures
            (match lookup(self@, id) {
                Some(rec) => r == Ok::<Record, StoreError>(rec),
                None => r == Err::<Record, StoreError>(StoreError::NotFound),
            }),
            r is Ok <==> contains_id(self@, id),
            unique_ids(self@),
    {
        proof {
            use_type_invariant(&*self);
        }
        match find_index(&self.records, id) {
            Some(i) => {
                proof {
                    lemma_idx_of_unique(self@, i as int);
                }
                Ok(self.records[i])
            },
            None => Err(StoreError::NotFound),
        }
    }

    /// Generate a fresh identifier, append the record `{id, price}` and
    /// return it. Always succeeds; the new identifier is carried by no
    /// record already present.
    pub fn create(&mut self, price: u64) -> (r: Record)
        ensures
            r.price == price,
            !contains_id(old(self)@, r.id),
            final(self)@ == old(self)@.push(r),
            unique_ids(final(self)@),
    {
        proof {
            use_type_invariant(&*self);
        }
        let id = fresh_id(&self.records);
        let rec = Record { id, price };
        let mut records: Vec<Record> = Vec::new();
        core::mem::swap(&mut records, &mut self.records);
        records.push(rec);
        proof {
            let s = old(self)@;
            let u = records@;
            assert(u =~= s.push(rec));
            assert forall|p: int, q: int|
                0 <= p < u.len() && 0 <= q < u.len() && p != q implies u[p].id != u[q].id by {
                if p < s.len() && q < s.len() {
                    assert(u[p] == s[p] && u[q] == s[q]);
                } else if p == s.len() {
                    assert(u[q] == s[q] && u[p] == rec);
                } else {
                    assert(u[p] == s[p] && u[q] == rec);
                }
            }
        }
        self.records = records;
        rec
    }

    /// Overwrite the price of the record carrying `id` and return the updated
    /// record, or fail with `NotFound` and leave the collection unchanged.
    /// On success only that record's `price` changes: its `id` and every
    /// other record stay as they were.
    pub fn update(&mut self, id: u128, price: u64) -> (r: Result<Record, StoreError>)
        ensures
            contains_id(old(self)@, id) ==> {
                &&& r == Ok::<Record, StoreError>((Record { id, price }))
                &&& final(self)@ == old(self)@.update(idx_of(old(self)@, id), (Record { id, price }))
                &&& final(self)@.len() == old(self)@.len()
            },
            !contains_id(old(self)@, id) ==> {
                &&& r == Err::<Record, StoreError>(StoreError::NotFound)
                &&& final(self)@ == old(self)@
            },
            unique_ids(final(self)@),
    {
        proof {
            use_type_invariant(&*self);
        }
        match find_index(&self.records, id) {
            Some(i) => {
                proof {
                    lemma_idx_of_unique(self@, i as int);
                }
                let rec = Record { id, price };
                let mut records: Vec<Record> = Vec::new();
                core::mem::swap(&mut records, &mut self.records);
                records[i] = rec;
                proof {
                    let s = old(self)@;
                    let u = records@;
                    assert(u == s.update(i as int, rec));
                    assert forall|p: int| 0 <= p < u.len() implies u[p].id == s[p].id by {
                        if p == i as int {
                            assert(u[p].id == rec.id && s[p].id == id);
                        }
                    }
                    assert forall|p: int, q: int|
                        0 <= p < u.len() && 0 <= q < u.len() && p != q implies u[p].id != u[q].id by {
                        assert(u[p].id == s[p].id && u[q].id == s[q].id);
                    }
                }
                self.records = records;
                Ok(rec)
            },
            None => Err(StoreError::NotFound),
        }
    }

    /// Remove the record carrying `id`, or fail with `NotFound` and leave the
    /// collection unchanged. On success exactly that record goes: the
    /// collection shrinks by one and no record carries `id` any more.
    pub fn delete(&mut self, id: u128) -> (r: Result<(), StoreError>)
        ensures
            contains_id(old(self)@, id) ==> {
                &&& r == Ok::<(), StoreError>(())
                &&& final(self)@ == old(self)@.remove(idx_of(old(self)@, id))
                &&& final(self)@.len() == old(self)@.len() - 1
                &&& !contains_id(final(self)@, id)
            },
            !contains_id(old(self)@, id) ==> {
                &&& r == Err::<(), StoreError>(StoreError::NotFound)
                &&& final(self)@ == old(self)@
            },
            unique_ids(final(self)@),
    {
        proof {
            use_type_invariant(&*self);
        }
        match find_index(&self.records, id) {
            Some(i) => {
                proof {
                    lemma_idx_of_unique(self@, i as int);
                }
                let mut records: Vec<Record> = Vec::new();
                core::mem::swap(&mut records, &mut self.records);
                records.remove(i);
                proof {
                    let s = old(self)@;
                    let u = records@;
                    s.remove_ensures(i as int);
                    assert forall|p: int, q: int|
                        0 <= p < u.len() && 0 <= q < u.len() && p != q implies u[p].id != u[q].id by {
                        let sp: int = if p < i as int { p } else { p + 1 };
                        let sq: int = if q < i as int { q } else { q + 1 };
                        assert(u[p] == s[sp] && u[q] == s[sq]);
                    }
                    assert forall|p: int| 0 <= p < u.len() implies u[p].id != id by {
                        let sp: int = if p < i as int { p } else { p + 1 };
                        assert(u[p] == s[sp]);
                        assert(sp != i as int);
                    }
                }
                self.records = records;
                Ok(())
            },
            None => Err(StoreError::NotFound),
        }
    }
}

/// Law: appending a record whose identifier is carried by no record yet
/// makes a lookup of that identifier find exactly the appended record.
pub proof fn lemma_lookup_after_push(s: Seq<Record>, r: Record)
    requires
        !contains_id(s, r.id),
    ensures
        lookup(s.push(r), r.id) == Some(r),
{
    let u = s.push(r);
    assert(u[s.len() as int] == r);
    assert(contains_id(u, r.id));
    let k = idx_of(u, r.id);
    assert(0 <= k < u.len() && u[k].id == r.id);
    if k < s.len() {
        assert(s[k].id == r.id);
        assert(contains_id(s, r.id));
    }
    assert(u[k] == r);
}

/// Law: in an empty collection, a lookup of any identifier finds nothing.
pub proof fn lemma_lookup_empty(id: u128)
    ensures
        lookup(Seq::<Record>::empty(), id) is None,
{
}

/// Relies on `uuid::Uuid::new_v4` (a randomly generated version-4 UUID) and
/// `uuid::Uuid::as_u128` (its 128-bit value). The result is random, so
/// nothing is assumed of it.
#[verifier::external_body]
fn random_id_bits() -> u128 {
    uuid::Uuid::new_v4().as_u128()
}

/// Pigeonhole: a collection of at most `u64::MAX` records cannot contain
/// every identifier in `0 ..= s.len()`, so some identifier in that range is
/// free.
proof fn lemma_some_small_id_free(s: Seq<Record>)
    requires
        s.len() <= u64::MAX,
    ensures
        exists|m: u128| m <= s.len() && !contains_id(s, m),
{
    broadcast use vstd::seq_lib::seq_to_set_is_finite;
    broadcast use vstd::set::group_set_axioms;

    assert_by_contradiction!(exists|m: u128| m <= s.len() && !contains_id(s, m), {
        let ids = s.map_values(|r: Record| r.id as int);
        assert forall|x: int| 0 <= x <= s.len() implies ids.to_set().contains(x) by {
            let m = x as u128;
            assert(m <= s.len());
            assert(contains_id(s, m));
            let i = choose|i: int| 0 <= i < s.len() && s[i].id == m;
            assert(ids[i] == x);
            assert(ids.contains(x));
        }
        let range = vstd::set_lib::set_int_range(0, s.len() + 1 as int);
        vstd::set_lib::lemma_int_range(0, s.len() + 1 as int);
        assert(range.subset_of(ids.to_set()));
        ids.lemma_cardinality_of_set();
        vstd::set_lib::lemma_len_subset(range, ids.to_set());
        assert(s.len() + 1 <= s.len());
    });
}

/// An identifier carried by no record in `records`: the random draw when it
/// is free, else the smallest free value among `0 ..= records.len()`, one of
/// which must be free because there are more candidates than records.
fn fresh_id(records: &Vec<Record>) -> (id: u128)
    ensures
        !contains_id(records@, id),
{
    let cand = random_id_bits();
    if find_index(records, cand).is_none() {
        return cand;
    }
    let bound: u128 = records.len() as u128;
    proof {
        lemma_some_small_id_free(records@);
    }
    let mut k: u128 = 0;
    while k <= bound
        invariant
            bound == records@.len(),
            k <= bound + 1,
            exists|m: u128| k <= m && m <= bound && !contains_id(records@, m),
        decreases bound + 1 - k,
    {
        let probe = find_index(records, k);
        if probe.is_none() {
            return k;
        }
        proof {
            assert(contains_id(records@, k));
            let w = choose|m: u128| k <= m && m <= bound && !contains_id(records@, m);
            assert(w != k);
            assert(k + 1 <= w && w <= bound && !contains_id(records@, w));
        }
        k += 1;
    }
    // Never reached: the invariant carries a free candidate at or above `k`,
    // so the loop returns before `k` passes `bound`.
    0
}

/// The position of the first record in `records` carrying `id`, by linear
/// scan.
fn find_index(records: &Vec<Record>, id: u128) -> (r: Option<usize>)
    ensures
        (match r {
            Some(i) => i < records@.len() && records@[i as int].id == id,
            None => !contains_id(records@, id),
        }),
{
    let mut i: usize = 0;
    while i < records.len()
        invariant
            i <= records.len(),
            forall|j: int| 0 <= j < i ==> records@[j].id != id,
        decreases records.len() - i,
    {
        if records[i].id == id {
            return Some(i);
        }
        i += 1;
    }
    None
}

} // verus!
