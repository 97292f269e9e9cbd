//! An in-memory substitute store.
//!
//! Run-time operations execute against an externally supplied store
//! handle; this module supplies one that keeps a single table's rows in
//! memory, in insertion order.  Its operations pin down what each
//! operation means — what a create appends, which rows a read by key
//! delivers, when a single-record read reports `NotFound` — so the
//! run-time semantics, including the create/read round trip, are proved
//! here and exercised in tests without a database.  The store does not assume key uniqueness at the storage
//! layer: rows with equal keys can be loaded, and a single-record read
//! that meets two of them reports an internal error.

use vstd::prelude::*;
use vstd::string::StringExecFns;

use crate::binder::{clone_record, resolve_single, FieldValue, Record, RecordModel, ValueModel};
use crate::error::{CRUDError, ErrorKind};

verus! {

/// Mathematical model of the store: the declared number of non-id
/// columns, the rows in insertion order, and the next key a create will
/// assign.
pub struct StoreModel {
    pub width: int,
    pub rows: Seq<RecordModel>,
    pub next_key: int,
}

/// The rows of `rows` whose key equals `key`, in storage order.
pub open spec fn matching_rows(rows: Seq<RecordModel>, key: int) -> Seq<RecordModel>
    decreases rows.len(),
{
    if rows.len() == 0 {
        Seq::empty()
    } else {
        matching_rows(rows.drop_last(), key) + if rows.last().key == key {
            seq![rows.last()]
        } else {
            Seq::empty()
        }
    }
}

/// The rows of `rows` whose key differs from `key`, in storage order.
pub open spec fn remaining_rows(rows: Seq<RecordModel>, key: int) -> Seq<RecordModel>
    decreases rows.len(),
{
    if rows.len() == 0 {
        Seq::empty()
    } else {
        remaining_rows(rows.drop_last(), key) + if rows.last().key == key {
            Seq::empty()
        } else {
            seq![rows.last()]
        }
    }
}

/// Every row with the record's key replaced by the record, every other
/// row untouched.
pub open spec fn updated_rows(rows: Seq<RecordModel>, rec: RecordModel) -> Seq<RecordModel> {
    rows.map_values(
        |r: RecordModel|
            if r.key == rec.key {
                rec
            } else {
                r
            },
    )
}

/// The record a create against store `s` returns: the fresh key and the
/// given values.
pub open spec fn created_record(s: StoreModel, values: Seq<ValueModel>) -> RecordModel {
    RecordModel { key: s.next_key, values }
}

/// The store a create against `s` leaves behind: the new row appended,
/// the next key advanced.
pub open spec fn created_store(s: StoreModel, values: Seq<ValueModel>) -> StoreModel {
    StoreModel {
        width: s.width,
        rows: s.rows.push(created_record(s, values)),
        next_key: s.next_key + 1,
    }
}

/// Well-formedness of a store: every row's key precedes the next key to
/// be assigned, and every row has one value per non-id column.
pub open spec fn wf_store(s: StoreModel) -> bool {
    &&& forall|i: int| 0 <= i < s.rows.len() ==> (#[trigger] s.rows[i]).key < s.next_key
    &&& forall|i: int| 0 <= i < s.rows.len() ==> (#[trigger] s.rows[i]).values.len() == s.width
}

/// A lazy, finite, single-consumption sequence of records: each element
/// is handed out on demand, the consumer may stop at any point, and
/// abandoning or exhausting the sequence needs no further release.
#[derive(Debug)]
pub struct RowStream {
    /// The rows still to be delivered come after `pos`.
    pub items: Vec<Record>,
    /// How many rows have been consumed.
    pub pos: usize,
}

impl RowStream {
    /// The consumed prefix never overruns the fetched rows.
    pub open spec fn wf(&self) -> bool {
        self.pos <= self.items.len()
    }

    /// The rows not yet consumed, in delivery order.
    pub open spec fn remaining(&self) -> Seq<RecordModel> {
        self.items@.map_values(|r: Record| r@).skip(self.pos as int)
    }

    /// Delivers the next record, or `None` once the sequence is
    /// exhausted.
    pub fn next(&mut self) -> (r: Option<Record>)
        requires
            old(self).wf(),
        ensures
            final(self).wf(),
            match r {
                Some(rec) => {
                    &&& old(self).remaining().len() > 0
                    &&& rec@ == old(self).remaining()[0]
                    &&& final(self).remaining() == old(self).remaining().drop_first()
                },
                None => {
                    &&& old(self).remaining().len() == 0
                    &&& final(self).remaining() == old(self).remaining()
                },
            },
    {
        if self.pos < self.items.len() {
            let rec = clone_record(&self.items[self.pos]);
            self.pos = self.pos + 1;
            proof {
                let mapped = self.items@.map_values(|r: Record| r@);
                assert(mapped.skip(self.pos as int) =~= mapped.skip(
                    self.pos - 1,
                ).drop_first());
            }
            Some(rec)
        } else {
            None
        }
    }
}

/// An in-memory substitute store for one table: rows in insertion order,
/// keys assigned in creation order.
#[derive(Debug)]
pub struct MemStore {
    /// The number of non-id columns of the table.
    pub width: usize,
    /// The rows, in insertion order.
    pub rows: Vec<Record>,
    /// The key the next create will assign.
    pub next_key: i64,
}

impl View for MemStore {
    type V = StoreModel;

    open spec fn view(&self) -> StoreModel {
        StoreModel {
            width: self.width as int,
            rows: self.rows@.map_values(|r: Record| r@),
            next_key: self.next_key as int,
        }
    }
}

impl MemStore {
    /// Well-formedness of the store.
    pub open spec fn wf(&self) -> bool {
        wf_store(self@)
    }

    /// An empty store for a table with `width` non-id columns.
    pub fn new(width: usize) -> (s: MemStore)
        ensures
            s.wf(),
            s@.width == width as int,
            s@.rows == Seq::<RecordModel>::empty(),
            s@.next_key == 1,
    {
        let s = MemStore { width, rows: Vec::new(), next_key: 1 };
        proof {
            assert(s@.rows =~= Seq::<RecordModel>::empty());
        }
        s
    }

    /// Loads a row as it stands, as externally present data: the storage
    /// layer does not assume key uniqueness, so a key equal to an
    /// existing row's is accepted.
    pub fn seed_row(&mut self, rec: Record)
        requires
            old(self).wf(),
            rec@.values.len() == old(self)@.width,
            rec@.key < i64::MAX,
        ensures
            final(self).wf(),
            final(self)@.width == old(self)@.width,
            final(self)@.rows == old(self)@.rows.push(rec@),
            final(self)@.next_key == if rec@.key + 1 > old(self)@.next_key {
                rec@.key + 1
            } else {
                old(self)@.next_key
            },
    {
        if self.next_key <= rec.key {
            self.next_key = rec.key + 1;
        }
        self.rows.push(rec);
        proof {
            assert(self@.rows =~= old(self)@.rows.push(rec@));
            assert forall|i: int| 0 <= i < self@.rows.len() implies (
            #[trigger] self@.rows[i]).key < self@.next_key && self@.rows[i].values.len()
                == self@.width by {
                if i < old(self)@.rows.len() {
                    assert(old(self)@.rows[i].key < old(self)@.next_key);
                    assert(old(self)@.rows[i].values.len() == old(self)@.width);
                }
            }
        }
    }

    /// Creates a new row from the non-id field values, in declaration
    /// order, and returns the stored record — fresh key included — as
    /// the statement's RETURNING clause delivers it.  A value list of
    /// the wrong arity is rejected with `InvalidInput` and leaves the
    /// store untouched.
    pub fn create(&mut self, values: Vec<FieldValue>) -> (r: Result<Record, CRUDError>)
        requires
            old(self).wf(),
            old(self)@.next_key < i64::MAX,
        ensures
            final(self).wf(),
            match r {
                Ok(rec) => {
                    &&& values@.len() == old(self)@.width
                    &&& rec@ == created_record(old(self)@, values@.map_values(|v: FieldValue| v@))
                    &&& final(self)@ == created_store(
                        old(self)@,
                        values@.map_values(|v: FieldValue| v@),
                    )
                },
                Err(e) => {
                    &&& values@.len() != old(self)@.width
                    &&& e.kind == ErrorKind::InvalidInput
                    &&& final(self)@ == old(self)@
                },
            },
    {
        if values.len() != self.width {
            return Err(
                CRUDError::with_kind(
                    ErrorKind::InvalidInput,
                    String::from_str("wrong number of field values for this table"),
                ),
            );
        }
        let ghost before = self@;
        let rec = Record { key: self.next_key, values };
        let stored = clone_record(&rec);
        self.rows.push(stored);
        self.next_key = self.next_key + 1;
        proof {
            assert(self@.rows =~= before.rows.push(rec@));
            assert(self@ == created_store(before, rec@.values));
        }
        Ok(rec)
    }

    /// Delivers the rows whose key equals `key`, in storage order, as a
    /// lazy sequence.
    pub fn read_by_key(&self, key: i64) -> (s: RowStream)
        ensures
            s.wf(),
            s.remaining() == matching_rows(self@.rows, key as int),
    {
        let matched = self.collect_matching(key);
        let s = RowStream { items: matched, pos: 0 };
        proof {
            assert(s.remaining() =~= s.items@.map_values(|r: Record| r@));
        }
        s
    }

    /// Delivers exactly one row with key `key`: the row if one row
    /// matches, `NotFound` if none does, and an internal error if the
    /// store holds more than one match.
    pub fn read_one_by_key(&self, key: i64) -> (r: Result<Record, CRUDError>)
        ensures
            match r {
                Ok(rec) => {
                    &&& matching_rows(self@.rows, key as int).len() == 1
                    &&& rec@ == matching_rows(self@.rows, key as int)[0]
                },
                Err(e) => {
                    &&& matching_rows(self@.rows, key as int).len() != 1
                    &&& matching_rows(self@.rows, key as int).len() == 0 ==> e.kind
                        == ErrorKind::NotFound
                    &&& matching_rows(self@.rows, key as int).len() > 1 ==> e.kind
                        == ErrorKind::InternalError
                },
            },
    {
        let matched = self.collect_matching(key);
        resolve_single(matched)
    }

    /// Delivers every row of the table, eagerly, in storage order.
    pub fn read_all(&self) -> (r: Result<Vec<Record>, CRUDError>)
        ensures
            r matches Ok(rows) && rows@.map_values(|rec: Record| rec@) == self@.rows,
    {
        let mut out: Vec<Record> = Vec::new();
        let mut i: usize = 0;
        while i < self.rows.len()
            invariant
                i <= self.rows.len(),
                out@.map_values(|rec: Record| rec@) =~= self@.rows.take(i as int),
            decreases self.rows.len() - i,
        {
            let ghost before = out@;
            out.push(clone_record(&self.rows[i]));
            proof {
                assert(out@.map_values(|rec: Record| rec@) =~= before.map_values(
                    |rec: Record| rec@,
                ).push(self@.rows[i as int]));
            }
            i = i + 1;
        }
        proof {
            assert(self@.rows.take(self.rows.len() as int) =~= self@.rows);
        }
        Ok(out)
    }

    /// Writes the record's values to every row whose key equals the
    /// record's key — zero or more rows, without reporting which.  A
    /// record of the wrong arity is rejected with `InvalidInput` and
    /// leaves the store untouched.
    pub fn update(&mut self, rec: &Record) -> (r: Result<(), CRUDError>)
        requires
            old(self).wf(),
        ensures
            final(self).wf(),
            match r {
                Ok(_) => {
                    &&& rec@.values.len() == old(self)@.width
                    &&& final(self)@.rows == updated_rows(old(self)@.rows, rec@)
                    &&& final(self)@.width == old(self)@.width
                    &&& final(self)@.next_key == old(self)@.next_key
                },
                Err(e) => {
                    &&& rec@.values.len() != old(self)@.width
                    &&& e.kind == ErrorKind::InvalidInput
                    &&& final(self)@ == old(self)@
                },
            },
    {
        if rec.values.len() != self.width {
            return Err(
                CRUDError::with_kind(
                    ErrorKind::InvalidInput,
                    String::from_str("wrong number of field values for this table"),
                ),
            );
        }
        let ghost before = self@;
        let mut i: usize = 0;
        while i < self.rows.len()
            invariant
                i <= self.rows.len(),
                self.rows@.len() == before.rows.len(),
                self.width == before.width,
                self.next_key == before.next_key,
                rec@.values.len() == before.width,
                forall|j: int|
                    0 <= j < i ==> #[trigger] self@.rows[j] == (if before.rows[j].key == rec@.key {
                        rec@
                    } else {
                        before.rows[j]
                    }),
                forall|j: int| i <= j < before.rows.len() ==> #[trigger] self@.rows[j]
                    == before.rows[j],
            decreases self.rows.len() - i,
        {
            let ghost entry_rows = self@.rows;
            let matched_here = self.rows[i].key == rec.key;
            if matched_here {
                let replacement = clone_record(rec);
                self.rows.set(i, replacement);
            }
            proof {
                assert(before.rows[i as int] == entry_rows[i as int]);
                assert forall|j: int| 0 <= j < i + 1 implies #[trigger] self@.rows[j] == (
                if before.rows[j].key == rec@.key {
                    rec@
                } else {
                    before.rows[j]
                }) by {
                    if j == i {
                        if matched_here {
                            assert(self@.rows[j] == rec@);
                        } else {
                            assert(self@.rows[j] == entry_rows[j]);
                        }
                    } else {
                        assert(self@.rows[j] == entry_rows[j]);
                    }
                }
                assert forall|j: int| i + 1 <= j < before.rows.len() implies #[trigger] self@.rows[j]
                    == before.rows[j] by {
                    assert(self@.rows[j] == entry_rows[j]);
                }
            }
            i = i + 1;
        }
        proof {
            assert(self@.rows =~= updated_rows(before.rows, rec@));
            assert forall|j: int| 0 <= j < self@.rows.len() implies (
            #[trigger] self@.rows[j]).key < self@.next_key && self@.rows[j].values.len()
                == self@.width by {
                if before.rows[j].key == rec@.key {
                    assert(self@.rows[j] == rec@);
                    assert(rec@.key == before.rows[j].key);
                }
            }
        }
        Ok(())
    }

    /// Removes every row whose key equals `key` — zero or more rows,
    /// without reporting which.
    pub fn delete(&mut self, key: i64) -> (r: Result<(), CRUDError>)
        requires
            old(self).wf(),
        ensures
            final(self).wf(),
            r matches Ok(_),
            final(self)@.rows == remaining_rows(old(self)@.rows, key as int),
            final(self)@.width == old(self)@.width,
            final(self)@.next_key == old(self)@.next_key,
    {
        let ghost before = self@;
        let mut kept: Vec<Record> = Vec::new();
        let mut i: usize = 0;
        while i < self.rows.len()
            invariant
                i <= self.rows.len(),
                before == self@,
                kept@.map_values(|r2: Record| r2@) =~= remaining_rows(
                    before.rows.take(i as int),
                    key as int,
                ),
            decreases self.rows.len() - i,
        {
            proof {
                assert(before.rows.take(i + 1).drop_last() =~= before.rows.take(i as int));
                assert(before.rows.take(i + 1).last() == before.rows[i as int]);
            }
            if self.rows[i].key != key {
                let ghost kept_before = kept@;
                kept.push(clone_record(&self.rows[i]));
                proof {
                    assert(kept@.map_values(|r2: Record| r2@) =~= kept_before.map_values(
                        |r2: Record| r2@,
                    ).push(before.rows[i as int]));
                }
            }
            i = i + 1;
        }
        proof {
            assert(before.rows.take(self.rows.len() as int) =~= before.rows);
        }
        self.rows = kept;
        proof {
            let result_rows = remaining_rows(before.rows, key as int);
            lemma_remaining_rows_subset(before.rows, key as int);
            assert forall|j: int| 0 <= j < result_rows.len() implies (
            #[trigger] result_rows[j]).key < before.next_key && result_rows[j].values.len()
                == before.width by {
                let witness = choose|w: int|
                    0 <= w < before.rows.len() && before.rows[w] == result_rows[j];
                assert(before.rows[witness].key < before.next_key);
            }
        }
        Ok(())
    }

    /// The rows whose key equals `key`, copied out in storage order.
    fn collect_matching(&self, key: i64) -> (matched: Vec<Record>)
        ensures
            matched@.map_values(|r: Record| r@) == matching_rows(self@.rows, key as int),
    {
        let mut matched: Vec<Record> = Vec::new();
        let mut i: usize = 0;
        while i < self.rows.len()
            invariant
                i <= self.rows.len(),
                matched@.map_values(|r: Record| r@) =~= matching_rows(
                    self@.rows.take(i as int),
                    key as int,
                ),
            decreases self.rows.len() - i,
        {
            proof {
                assert(self@.rows.take(i + 1).drop_last() =~= self@.rows.take(i as int));
                assert(self@.rows.take(i + 1).last() == self@.rows[i as int]);
            }
            if self.rows[i].key == key {
                let ghost before = matched@;
                matched.push(clone_record(&self.rows[i]));
                proof {
                    assert(matched@.map_values(|r: Record| r@) =~= before.map_values(
                        |r: Record| r@,
                    ).push(self@.rows[i as int]));
                }
            }
            i = i + 1;
        }
        proof {
            assert(self@.rows.take(self.rows.len() as int) =~= self@.rows);
        }
        matched
    }
}

/// Every row the deletion keeps was a row of the store.
proof fn lemma_remaining_rows_subset(rows: Seq<RecordModel>, key: int)
    ensures
        forall|j: int|
            0 <= j < remaining_rows(rows, key).len() ==> exists|w: int|
                0 <= w < rows.len() && rows[w] == #[trigger] remaining_rows(rows, key)[j],
    decreases rows.len(),
{
    if rows.len() > 0 {
        lemma_remaining_rows_subset(rows.drop_last(), key);
        assert forall|j: int| 0 <= j < remaining_rows(rows, key).len() implies exists|w: int|
            0 <= w < rows.len() && rows[w] == #[trigger] remaining_rows(rows, key)[j] by {
            let prefix = remaining_rows(rows.drop_last(), key);
            if j < prefix.len() {
                assert(remaining_rows(rows, key)[j] == prefix[j]);
                let w = choose|w: int|
                    0 <= w < rows.drop_last().len() && rows.drop_last()[w] == prefix[j];
                assert(rows[w] == prefix[j]);
            } else {
                assert(remaining_rows(rows, key)[j] == rows.last());
                assert(rows[rows.len() - 1] == rows.last());
            }
        }
    }
}

/// No row of a well-formed store carries a key the store has not yet
/// assigned.
proof fn lemma_unassigned_key_matches_nothing(rows: Seq<RecordModel>, key: int)
    requires
        forall|i: int| 0 <= i < rows.len() ==> (#[trigger] rows[i]).key != key,
    ensures
        matching_rows(rows, key) == Seq::<RecordModel>::empty(),
    decreases rows.len(),
{
    if rows.len() > 0 {
        assert(forall|i: int|
            0 <= i < rows.drop_last().len() ==> (#[trigger] rows.drop_last()[i]).key != key);
        lemma_unassigned_key_matches_nothing(rows.drop_last(), key);
        assert(matching_rows(rows, key) =~= Seq::<RecordModel>::empty());
    }
}

/// Round trip: against a well-formed store, a create followed by a read
/// of one record by the returned key meets exactly the record the create
/// returned — the read cannot miss it, and no older row can shadow it.
pub proof fn lemma_create_read_round_trip(s: StoreModel, values: Seq<ValueModel>)
    requires
        wf_store(s),
    ensures
        matching_rows(created_store(s, values).rows, created_record(s, values).key) == seq![
            created_record(s, values),
        ],
{
    let rec = created_record(s, values);
    assert(forall|i: int| 0 <= i < s.rows.len() ==> (#[trigger] s.rows[i]).key != rec.key);
    lemma_unassigned_key_matches_nothing(s.rows, rec.key);
    let appended = created_store(s, values).rows;
    assert(appended.drop_last() =~= s.rows);
    assert(appended.last() == rec);
    assert(matching_rows(appended, rec.key) =~= seq![rec]);
}

} // verus!
