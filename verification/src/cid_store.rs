//! The store of content-id mappings.
//!
//! One mapping row associates a (country code, locality id) pair with the
//! content id the storage network assigned to that locality's archive, the
//! archive's size and the upload time. The store is upsert-only: writing a
//! key that is already present replaces its row, so there is never more than
//! one row per key. The surrounding process persists the rows in a database
//! table whose primary key is the same pair.

use crate::text::str_eq;
use vstd::prelude::*;

verus! {

/// One persisted mapping row.
#[derive(Debug, Clone)]
pub struct CidMapping {
    pub country_code: String,
    pub locality_id: u32,
    pub cid: String,
    pub file_size: u64,
    pub upload_time: u64,
}

/// The key a row is stored under.
pub open spec fn spec_key(m: CidMapping) -> (Seq<char>, u32) {
    (m.country_code@, m.locality_id)
}

/// The map that a sequence of rows denotes; a later row with the same key
/// shadows an earlier one.
pub open spec fn rows_as_map(s: Seq<CidMapping>) -> Map<(Seq<char>, u32), CidMapping>
    decreases s.len(),
{
    if s.len() == 0 {
        Map::empty()
    } else {
        rows_as_map(s.drop_last()).insert(spec_key(s.last()), s.last())
    }
}

/// A key is in the map exactly when some row carries it, and the map holds
/// one of the rows carrying it.
pub proof fn lemma_rows_as_map_contains(s: Seq<CidMapping>, k: (Seq<char>, u32))
    ensures
        rows_as_map(s).contains_key(k) <==> (exists|i: int|
            0 <= i < s.len() && spec_key(#[trigger] s[i]) == k),
        rows_as_map(s).contains_key(k) ==> (exists|i: int|
            0 <= i < s.len() && spec_key(#[trigger] s[i]) == k && rows_as_map(s)[k] == s[i]),
    decreases s.len(),
{
    if s.len() > 0 {
        lemma_rows_as_map_contains(s.drop_last(), k);
        if spec_key(s.last()) == k {
            assert(spec_key(s[s.len() - 1]) == k);
        } else {
            if rows_as_map(s).contains_key(k) {
                let i = choose|i: int|
                    0 <= i < s.drop_last().len() && spec_key(#[trigger] s.drop_last()[i]) == k
                        && rows_as_map(s.drop_last())[k] == s.drop_last()[i];
                assert(s.drop_last()[i] == s[i]);
            }
            if exists|i: int| 0 <= i < s.len() && spec_key(#[trigger] s[i]) == k {
                let i = choose|i: int| 0 <= i < s.len() && spec_key(#[trigger] s[i]) == k;
                assert(s.drop_last()[i] == s[i]);
            }
        }
    }
}

/// Replacing the row at `i` in place, with a row of the same key, denotes
/// the same map as inserting that row.
proof fn lemma_rows_as_map_update(s: Seq<CidMapping>, i: int, m: CidMapping)
    requires
        0 <= i < s.len(),
        spec_key(s[i]) == spec_key(m),
        forall|p: int, q: int|
            0 <= p < q < s.len() ==> spec_key(#[trigger] s[p]) != spec_key(#[trigger] s[q]),
    ensures
        rows_as_map(s.update(i, m)) =~= rows_as_map(s).insert(spec_key(m), m),
    decreases s.len(),
{
    let t = s.update(i, m);
    if i == s.len() - 1 {
        assert(t.drop_last() =~= s.drop_last());
        assert(t.last() == m);
    } else {
        assert(t.drop_last() =~= s.drop_last().update(i, m));
        assert(t.last() == s.last());
        lemma_rows_as_map_update(s.drop_last(), i, m);
        assert(spec_key(s.last()) != spec_key(m)) by {
            assert(spec_key(s[i]) != spec_key(s[s.len() - 1]));
        }
    }
}

/// The in-memory image of the mapping table, rows keyed uniquely.
#[derive(Debug)]
pub struct CidStore {
    rows: Vec<CidMapping>,
}

impl CidStore {
    /// The rows, in insertion order.
    pub closed spec fn rows(&self) -> Seq<CidMapping> {
        self.rows@
    }

    /// The association the rows denote.
    pub open spec fn mapping(&self) -> Map<(Seq<char>, u32), CidMapping> {
        rows_as_map(self.rows())
    }

    /// No two rows share a key: the table's primary-key invariant.
    pub open spec fn wf(&self) -> bool {
        forall|p: int, q: int|
            0 <= p < q < self.rows().len() ==> spec_key(#[trigger] self.rows()[p]) != spec_key(
                #[trigger] self.rows()[q],
            )
    }

    pub fn new() -> (r: Self)
        ensures
            r.rows() == Seq::<CidMapping>::empty(),
            r.wf(),
    {
        Self { rows: Vec::new() }
    }

    /// Find the index of the row holding `(country_code, locality_id)`.
    fn find_row(&self, country_code: &str, locality_id: u32) -> (r: Option<usize>)
        ensures
            match r {
                Some(i) => 0 <= i < self.rows().len() && spec_key(self.rows()[i as int]) == (
                    country_code@,
                    locality_id,
                ),
                None => forall|i: int|
                    0 <= i < self.rows().len() ==> spec_key(#[trigger] self.rows()[i]) != (
                        country_code@,
                        locality_id,
                    ),
            },
    {
        let n = self.rows.len();
        let mut i: usize = 0;
        while i < n
            invariant
                n == self.rows().len(),
                i <= n,
                forall|k: int|
                    0 <= k < i ==> spec_key(#[trigger] self.rows()[k]) != (
                        country_code@,
                        locality_id,
                    ),
            decreases n - i,
        {
            let row = &self.rows[i];
            if row.locality_id == locality_id && str_eq(row.country_code.as_str(), country_code) {
                return Some(i);
            }
            i = i + 1;
        }
        None
    }

    /// Whether a mapping is already recorded for this locality.
    pub fn has_cid_mapping(&self, country_code: &str, locality_id: u32) -> (r: bool)
        ensures
            r == self.mapping().contains_key((country_code@, locality_id)),
    {
        proof {
            lemma_rows_as_map_contains(self.rows(), (country_code@, locality_id));
        }
        match self.find_row(country_code, locality_id) {
            Some(_) => true,
            None => false,
        }
    }

    /// The recorded row for this locality, if any.
    pub fn get_cid_mapping(&self, country_code: &str, locality_id: u32) -> (r: Option<
        &CidMapping,
    >)
        requires
            self.wf(),
        ensures
            match r {
                Some(m) => self.mapping().contains_key((country_code@, locality_id))
                    && self.mapping()[(country_code@, locality_id)] == *m,
                None => !self.mapping().contains_key((country_code@, locality_id)),
            },
    {
        proof {
            lemma_rows_as_map_contains(self.rows(), (country_code@, locality_id));
        }
        match self.find_row(country_code, locality_id) {
            Some(i) => {
                proof {
                    let k = (country_code@, locality_id);
                    let j = choose|j: int|
                        0 <= j < self.rows().len() && spec_key(#[trigger] self.rows()[j]) == k
                            && rows_as_map(self.rows())[k] == self.rows()[j];
                    assert(j == i as int);
                }
                Some(&self.rows[i])
            },
            None => None,
        }
    }

    /// Write one row: replace the row with the same key if there is one,
    /// append otherwise. The row count grows only when the key was absent,
    /// so a key never has more than one row.
    pub fn upsert(&mut self, m: CidMapping)
        requires
            old(self).wf(),
        ensures
            final(self).wf(),
            final(self).mapping() == old(self).mapping().insert(spec_key(m), m),
            final(self).rows().len() == old(self).rows().len() + (if old(
                self,
            ).mapping().contains_key(spec_key(m)) {
                0int
            } else {
                1int
            }),
    {
        proof {
            lemma_rows_as_map_contains(self.rows(), spec_key(m));
        }
        match self.find_row(m.country_code.as_str(), m.locality_id) {
            Some(i) => {
                proof {
                    lemma_rows_as_map_update(self.rows(), i as int, m);
                }
                self.rows.set(i, m);
                proof {
                    assert(forall|p: int, q: int|
                        0 <= p < q < self.rows().len() ==> spec_key(#[trigger] self.rows()[p])
                            != spec_key(#[trigger] self.rows()[q])) by {
                        assert(forall|p: int|
                            0 <= p < self.rows().len() && p != i ==> spec_key(
                                #[trigger] self.rows()[p],
                            ) == spec_key(old(self).rows()[p]));
                    }
                }
            },
            None => {
                self.rows.push(m);
                proof {
                    assert(self.rows@.drop_last() =~= old(self).rows());
                    assert(self.rows@.last() == m);
                }
            },
        }
    }

    /// Write a whole batch of rows, first to last.
    pub fn batch_insert_cid_mappings(&mut self, mappings: &Vec<CidMapping>)
        requires
            old(self).wf(),
        ensures
            final(self).wf(),
            final(self).mapping() == upsert_all(old(self).mapping(), mappings@),
    {
        let n = mappings.len();
        let mut i: usize = 0;
        proof {
            assert(mappings@.take(0) =~= Seq::<CidMapping>::empty());
        }
        while i < n
            invariant
                n == mappings@.len(),
                i <= n,
                self.wf(),
                self.mapping() == upsert_all(old(self).mapping(), mappings@.take(i as int)),
            decreases n - i,
        {
            let row = &mappings[i];
            self.upsert(
                CidMapping {
                    country_code: row.country_code.clone(),
                    locality_id: row.locality_id,
                    cid: row.cid.clone(),
                    file_size: row.file_size,
                    upload_time: row.upload_time,
                },
            );
            proof {
                assert(mappings@.take(i + 1).drop_last() =~= mappings@.take(i as int));
                assert(mappings@.take(i + 1).last() == mappings@[i as int]);
            }
            i = i + 1;
        }
        proof {
            assert(mappings@.take(n as int) =~= mappings@);
        }
    }

    /// How many rows the store holds.
    pub fn len(&self) -> (r: usize)
        ensures
            r == self.rows().len(),
    {
        self.rows.len()
    }
}

/// The map after writing every row of `s` in order, later rows winning.
pub open spec fn upsert_all(
    m0: Map<(Seq<char>, u32), CidMapping>,
    s: Seq<CidMapping>,
) -> Map<(Seq<char>, u32), CidMapping>
    decreases s.len(),
{
    if s.len() == 0 {
        m0
    } else {
        upsert_all(m0, s.drop_last()).insert(spec_key(s.last()), s.last())
    }
}

/// A key that is mapped at all is carried by exactly one row, the one the
/// mapping holds: the table's primary-key discipline, as a fact about every
/// well-formed store.
pub proof fn lemma_one_row_per_key(s: &CidStore, k: (Seq<char>, u32))
    requires
        s.wf(),
        s.mapping().contains_key(k),
    ensures
        exists|i: int|
            {
                &&& 0 <= i < s.rows().len()
                &&& spec_key(#[trigger] s.rows()[i]) == k
                &&& s.mapping()[k] == s.rows()[i]
                &&& forall|j: int|
                    0 <= j < s.rows().len() && spec_key(#[trigger] s.rows()[j]) == k ==> j == i
            },
{
    lemma_rows_as_map_contains(s.rows(), k);
    let i = choose|i: int|
        0 <= i < s.rows().len() && spec_key(#[trigger] s.rows()[i]) == k && rows_as_map(s.rows())[k]
            == s.rows()[i];
    assert forall|j: int|
        0 <= j < s.rows().len() && spec_key(#[trigger] s.rows()[j]) == k implies j == i by {
        if j < i {
            assert(spec_key(s.rows()[j]) != spec_key(s.rows()[i]));
        } else if j > i {
            assert(spec_key(s.rows()[i]) != spec_key(s.rows()[j]));
        }
    }
    assert({
        &&& 0 <= i < s.rows().len()
        &&& spec_key(s.rows()[i]) == k
        &&& s.mapping()[k] == s.rows()[i]
        &&& forall|j: int|
            0 <= j < s.rows().len() && spec_key(#[trigger] s.rows()[j]) == k ==> j == i
    });
}

/// Repeated uploads of one locality leave exactly one mapping, and it holds
/// the latest content id: a second write of the same key replaces the first
/// and adds no row.
pub proof fn lemma_repeated_upsert_latest_wins(
    m0: Map<(Seq<char>, u32), CidMapping>,
    first: CidMapping,
    second: CidMapping,
)
    requires
        spec_key(first) == spec_key(second),
    ensures
        m0.insert(spec_key(first), first).insert(spec_key(second), second) == m0.insert(
            spec_key(second),
            second,
        ),
        m0.insert(spec_key(first), first).insert(spec_key(second), second).dom() =~= m0.dom()
            + set![spec_key(second)],
{
    assert(m0.insert(spec_key(first), first).insert(spec_key(second), second) =~= m0.insert(
        spec_key(second),
        second,
    ));
}

} // verus!
