//! Wiring of synthesized statements to run-time calling conventions.
//!
//! For each operation kind this module fixes the statement text, the
//! number of bound parameters, and the result shape; it builds the bound
//! parameter lists in the order the statements expect them — non-id
//! values in declaration order, and for update the key last — and it
//! resolves what the store hands back into the promised result shape.
//! The store itself is supplied by the caller; nothing here opens
//! connections or reads ambient configuration.

use vstd::prelude::*;

use crate::descriptor::{lemma_field_partition, non_id_names, SchemaDescriptor};
use crate::error::{classified_kind, failure_text, CRUDError, ErrorKind, StoreFailure};
use crate::synth::{
    create_query, create_query_model, delete_query, delete_query_model, read_all_query,
    read_all_query_model, read_by_key_query, read_by_key_query_model, update_query,
    update_query_model,
};

verus! {

/// Mathematical model of a bound or returned value.
pub enum ValueModel {
    Int(int),
    Text(Seq<char>),
}

/// A plain value bound to a statement parameter or read back from a row.
#[derive(Debug, Clone, PartialEq, Eq)]
pub enum FieldValue {
    /// An integer value.
    Int(i64),
    /// A text value.
    Text(String),
}

impl View for FieldValue {
    type V = ValueModel;

    open spec fn view(&self) -> ValueModel {
        match self {
            FieldValue::Int(n) => ValueModel::Int(*n as int),
            FieldValue::Text(s) => ValueModel::Text(s@),
        }
    }
}

/// Copies a value.
pub fn clone_value(v: &FieldValue) -> (r: FieldValue)
    ensures
        r@ == v@,
{
    match v {
        FieldValue::Int(n) => FieldValue::Int(*n),
        FieldValue::Text(s) => FieldValue::Text(s.clone()),
    }
}

/// Mathematical model of a record.
pub struct RecordModel {
    pub key: int,
    pub values: Seq<ValueModel>,
}

/// One record of a table: the key value and the non-id field values in
/// declaration order.
#[derive(Debug, Clone, PartialEq, Eq)]
pub struct Record {
    /// The value of the id column.
    pub key: i64,
    /// The non-id column values, in declaration order.
    pub values: Vec<FieldValue>,
}

impl View for Record {
    type V = RecordModel;

    open spec fn view(&self) -> RecordModel {
        RecordModel { key: self.key as int, values: self.values@.map_values(|v: FieldValue| v@) }
    }
}

/// Copies a record.
pub fn clone_record(r: &Record) -> (c: Record)
    ensures
        c@ == r@,
{
    let mut values: Vec<FieldValue> = Vec::new();
    let mut i: usize = 0;
    while i < r.values.len()
        invariant
            i <= r.values.len(),
            values@.map_values(|v: FieldValue| v@) =~= r.values@.map_values(
                |v: FieldValue| v@,
            ).take(i as int),
        decreases r.values.len() - i,
    {
        let ghost before = values@;
        values.push(clone_value(&r.values[i]));
        proof {
            assert(values@.map_values(|v: FieldValue| v@) =~= before.map_values(
                |v: FieldValue| v@,
            ).push(r.values@.map_values(|v: FieldValue| v@)[i as int]));
        }
        i = i + 1;
    }
    proof {
        let mapped = r.values@.map_values(|v: FieldValue| v@);
        assert(mapped.take(r.values.len() as int) =~= mapped);
    }
    Record { key: r.key, values }
}

/// The shape a run-time operation delivers its result in.
#[derive(Clone, Copy, Debug, PartialEq, Eq, Structural)]
pub enum ResultShape {
    /// Exactly one record.
    OneRecord,
    /// A lazy, finite, single-consumption sequence of records.
    RecordStream,
    /// An eagerly materialized sequence of records.
    RecordList,
    /// A success or failure signal only.
    NoValue,
}

/// The fixed set of operations synthesized for a descriptor.
#[derive(Clone, Copy, Debug, PartialEq, Eq, Structural)]
pub enum OperationKind {
    Create,
    ReadByKey,
    ReadOneByKey,
    ReadAll,
    Update,
    Delete,
}

/// The statement text an operation kind runs.
pub open spec fn query_model_for(kind: OperationKind, m: crate::descriptor::SchemaModel) -> Seq<
    char,
> {
    match kind {
        OperationKind::Create => create_query_model(m),
        OperationKind::ReadByKey => read_by_key_query_model(m),
        OperationKind::ReadOneByKey => read_by_key_query_model(m),
        OperationKind::ReadAll => read_all_query_model(m),
        OperationKind::Update => update_query_model(m),
        OperationKind::Delete => delete_query_model(m),
    }
}

/// How many parameters an operation kind binds.
pub open spec fn param_count_for(kind: OperationKind, m: crate::descriptor::SchemaModel) -> nat {
    match kind {
        OperationKind::Create => non_id_names(m.fields).len(),
        OperationKind::ReadByKey => 1,
        OperationKind::ReadOneByKey => 1,
        OperationKind::ReadAll => 0,
        OperationKind::Update => non_id_names(m.fields).len() + 1,
        OperationKind::Delete => 1,
    }
}

/// The result shape an operation kind delivers.
pub open spec fn shape_for(kind: OperationKind) -> ResultShape {
    match kind {
        OperationKind::Create => ResultShape::OneRecord,
        OperationKind::ReadByKey => ResultShape::RecordStream,
        OperationKind::ReadOneByKey => ResultShape::OneRecord,
        OperationKind::ReadAll => ResultShape::RecordList,
        OperationKind::Update => ResultShape::NoValue,
        OperationKind::Delete => ResultShape::NoValue,
    }
}

/// A synthesized statement wired to its run-time calling convention:
/// the statement text, how many parameters it binds, and the shape of
/// what it returns.
#[derive(Debug, Clone)]
pub struct OperationPlan {
    /// Which operation this plan runs.
    pub kind: OperationKind,
    /// The statement text, exactly as synthesized.
    pub sql: String,
    /// How many parameters the statement binds.
    pub param_count: usize,
    /// The shape the operation delivers its result in.
    pub shape: ResultShape,
}

/// Builds the run-time plan of one operation for a validated descriptor.
pub fn plan_operation(d: &SchemaDescriptor, kind: OperationKind) -> (p: OperationPlan)
    requires
        d.wf(),
    ensures
        p.kind == kind,
        p.sql@ == query_model_for(kind, d@),
        p.param_count == param_count_for(kind, d@),
        p.shape == shape_for(kind),
{
    let field_total = d.fields.len();
    proof {
        lemma_field_partition(d@.fields);
        assert(d@.fields.len() == field_total);
    }
    match kind {
        OperationKind::Create => OperationPlan {
            kind,
            sql: create_query(d),
            param_count: d.non_id_count(),
            shape: ResultShape::OneRecord,
        },
        OperationKind::ReadByKey => OperationPlan {
            kind,
            sql: read_by_key_query(d),
            param_count: 1,
            shape: ResultShape::RecordStream,
        },
        OperationKind::ReadOneByKey => OperationPlan {
            kind,
            sql: read_by_key_query(d),
            param_count: 1,
            shape: ResultShape::OneRecord,
        },
        OperationKind::ReadAll => OperationPlan {
            kind,
            sql: read_all_query(d),
            param_count: 0,
            shape: ResultShape::RecordList,
        },
        OperationKind::Update => OperationPlan {
            kind,
            sql: update_query(d),
            param_count: d.non_id_count() + 1,
            shape: ResultShape::NoValue,
        },
        OperationKind::Delete => OperationPlan {
            kind,
            sql: delete_query(d),
            param_count: 1,
            shape: ResultShape::NoValue,
        },
    }
}

/// The parameter list of a create: the non-id field values exactly as
/// given, in declaration order.  A value list of the wrong arity is
/// rejected before it reaches the store.
pub fn create_binding(d: &SchemaDescriptor, values: Vec<FieldValue>) -> (r: Result<
    Vec<FieldValue>,
    CRUDError,
>)
    ensures
        match r {
            Ok(b) => b == values && values@.len() == non_id_names(d@.fields).len(),
            Err(e) => {
                &&& values@.len() != non_id_names(d@.fields).len()
                &&& e.kind == ErrorKind::InvalidInput
            },
        },
{
    if values.len() != d.non_id_count() {
        return Err(
            CRUDError::with_kind(
                ErrorKind::InvalidInput,
                String::from_str("wrong number of field values for this table"),
            ),
        );
    }
    Ok(values)
}

/// The parameter list of an update: the record's non-id values in
/// declaration order, then the key — the id parameter binds last, after
/// every assignment parameter.  A record of the wrong arity is rejected
/// before it reaches the store.
pub fn update_binding(d: &SchemaDescriptor, rec: &Record) -> (r: Result<Vec<FieldValue>, CRUDError>)
    ensures
        match r {
            Ok(b) => {
                &&& rec@.values.len() == non_id_names(d@.fields).len()
                &&& b@.map_values(|v: FieldValue| v@) == rec@.values + seq![
                    ValueModel::Int(rec@.key),
                ]
            },
            Err(e) => {
                &&& rec@.values.len() != non_id_names(d@.fields).len()
                &&& e.kind == ErrorKind::InvalidInput
            },
        },
{
    if rec.values.len() != d.non_id_count() {
        return Err(
            CRUDError::with_kind(
                ErrorKind::InvalidInput,
                String::from_str("wrong number of field values for this table"),
            ),
        );
    }
    let copy = clone_record(rec);
    let mut b = copy.values;
    let ghost bound_values = b@.map_values(|v: FieldValue| v@);
    b.push(FieldValue::Int(rec.key));
    proof {
        assert(b@.map_values(|v: FieldValue| v@) =~= bound_values.push(ValueModel::Int(rec@.key)));
        assert(bound_values.push(ValueModel::Int(rec@.key)) =~= rec@.values + seq![
            ValueModel::Int(rec@.key),
        ]);
    }
    Ok(b)
}

/// The parameter list of a read-by-key, a single-record read, or a
/// delete: the key value alone.
pub fn key_binding(key: i64) -> (b: Vec<FieldValue>)
    ensures
        b@.map_values(|v: FieldValue| v@) == seq![ValueModel::Int(key as int)],
{
    let mut b: Vec<FieldValue> = Vec::new();
    b.push(FieldValue::Int(key));
    proof {
        assert(b@.map_values(|v: FieldValue| v@) =~= seq![ValueModel::Int(key as int)]);
    }
    b
}

/// Per-element translation of the lazy read: a fetched record passes
/// through unchanged, and a per-element store failure is translated into
/// the caller-facing taxonomy.
pub fn stream_item(item: Result<Record, StoreFailure>) -> (r: Result<Record, CRUDError>)
    ensures
        match item {
            Ok(rec) => r matches Ok(out) && out == rec,
            Err(f) => r matches Err(e) && e.kind == classified_kind(f) && e.message@
                == failure_text(f),
        },
{
    match item {
        Ok(rec) => Ok(rec),
        Err(f) => Err(crate::error::classify_store_failure(f)),
    }
}

/// Resolves the rows matching a single-record read into its promised
/// shape: the one matching record; `NotFound` if no row matched; an
/// internal error if the store reported more than one match, rather than
/// silently returning an arbitrary row.
pub fn resolve_single(matched: Vec<Record>) -> (r: Result<Record, CRUDError>)
    ensures
        match r {
            Ok(rec) => matched@.len() == 1 && rec == matched@[0],
            Err(e) => {
                &&& matched@.len() != 1
                &&& matched@.len() == 0 ==> e.kind == ErrorKind::NotFound
                &&& matched@.len() > 1 ==> e.kind == ErrorKind::InternalError
            },
        },
{
    let mut matched = matched;
    if matched.len() == 0 {
        Err(CRUDError::with_kind(ErrorKind::NotFound, String::from_str("no matching row")))
    } else if matched.len() > 1 {
        Err(
            CRUDError::with_kind(
                ErrorKind::InternalError,
                String::from_str("more than one row matched a single-record read"),
            ),
        )
    } else {
        let rec = matched.remove(0);
        Ok(rec)
    }
}

} // verus!
