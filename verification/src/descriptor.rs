//! The validated, in-memory representation of a record type's table
//! mapping, together with its mathematical model.
//!
//! A [`SchemaDescriptor`] is produced once per record type by the builder,
//! is immutable thereafter, and drives every synthesized statement.  Field
//! order is semantically significant: it is preserved verbatim from the
//! source declaration and determines column and placeholder order.

use vstd::prelude::*;

verus! {

/// Mathematical model of one field: its name, the name of its value type,
/// and whether it is the id field.
pub struct FieldModel {
    pub name: Seq<char>,
    pub value_type: Seq<char>,
    pub is_id: bool,
}

/// One field of a record type, in declaration order within its descriptor.
#[derive(Debug, Clone)]
pub struct FieldDescriptor {
    /// The field's identifier; nonempty in a well-formed descriptor.
    pub name: String,
    /// The field's semantic value type, opaque to synthesis and used
    /// verbatim in generated parameter signatures.
    pub value_type: String,
    /// Whether this field is the table's primary key.
    pub is_id: bool,
}

impl View for FieldDescriptor {
    type V = FieldModel;

    open spec fn view(&self) -> FieldModel {
        FieldModel { name: self.name@, value_type: self.value_type@, is_id: self.is_id }
    }
}

/// Mathematical model of a validated descriptor.
pub struct SchemaModel {
    pub record_name: Seq<char>,
    pub table_name: Seq<char>,
    pub fields: Seq<FieldModel>,
}

/// The validated mapping of one record type to one database table.
///
/// Constructed by the builder at generation time and consumed by the
/// synthesizer; it is not a run-time artifact.
#[derive(Debug, Clone)]
pub struct SchemaDescriptor {
    /// Identifier of the record type, used only for diagnostics and
    /// generated names.
    pub record_name: String,
    /// The target table, inserted verbatim into synthesized statements.
    pub table_name: String,
    /// The fields in declaration order; order drives column and
    /// placeholder order.
    pub fields: Vec<FieldDescriptor>,
}

impl View for SchemaDescriptor {
    type V = SchemaModel;

    open spec fn view(&self) -> SchemaModel {
        SchemaModel {
            record_name: self.record_name@,
            table_name: self.table_name@,
            fields: self.fields@.map_values(|f: FieldDescriptor| f@),
        }
    }
}

/// How many fields of `fields` are marked as the id.
pub open spec fn id_count(fields: Seq<FieldModel>) -> nat
    decreases fields.len(),
{
    if fields.len() == 0 {
        0
    } else {
        id_count(fields.drop_last()) + if fields.last().is_id {
            1nat
        } else {
            0nat
        }
    }
}

/// The name of the last id-marked field of `fields`; with exactly one id
/// field, the name of that field.
pub open spec fn id_name(fields: Seq<FieldModel>) -> Seq<char>
    decreases fields.len(),
{
    if fields.len() == 0 {
        Seq::empty()
    } else if fields.last().is_id {
        fields.last().name
    } else {
        id_name(fields.drop_last())
    }
}

/// The names of the fields not marked as the id, in declaration order.
pub open spec fn non_id_names(fields: Seq<FieldModel>) -> Seq<Seq<char>>
    decreases fields.len(),
{
    if fields.len() == 0 {
        Seq::empty()
    } else {
        non_id_names(fields.drop_last()) + if fields.last().is_id {
            Seq::empty()
        } else {
            seq![fields.last().name]
        }
    }
}

/// The id-marked fields and the non-id columns together account for
/// every declared field.
pub proof fn lemma_field_partition(fields: Seq<FieldModel>)
    ensures
        non_id_names(fields).len() + id_count(fields) == fields.len(),
    decreases fields.len(),
{
    if fields.len() > 0 {
        lemma_field_partition(fields.drop_last());
    }
}

/// Every field carries a nonempty name.
pub open spec fn all_fields_named(fields: Seq<FieldModel>) -> bool {
    forall|i: int| 0 <= i < fields.len() ==> (#[trigger] fields[i]).name.len() != 0
}

/// The structural invariants a validated descriptor's fields satisfy:
/// exactly one field is marked as the id, and every field has a nonempty
/// name.
pub open spec fn wf_fields(fields: Seq<FieldModel>) -> bool {
    &&& id_count(fields) == 1
    &&& all_fields_named(fields)
}

impl SchemaDescriptor {
    /// Well-formedness: the invariants the builder establishes and every
    /// consumer may rely on.
    pub open spec fn wf(&self) -> bool {
        wf_fields(self@.fields)
    }

    /// The number of fields not marked as the id.
    pub fn non_id_count(&self) -> (n: usize)
        ensures
            n == non_id_names(self@.fields).len(),
    {
        let mut n: usize = 0;
        let mut i: usize = 0;
        while i < self.fields.len()
            invariant
                i <= self.fields.len(),
                n == non_id_names(self@.fields.take(i as int)).len(),
                n <= i,
            decreases self.fields.len() - i,
        {
            proof {
                assert(self@.fields.take(i + 1).drop_last() =~= self@.fields.take(i as int));
                assert(self@.fields.take(i + 1).last() == self@.fields[i as int]);
            }
            if !self.fields[i].is_id {
                n = n + 1;
            }
            i = i + 1;
        }
        proof {
            assert(self@.fields.take(self.fields.len() as int) =~= self@.fields);
        }
        n
    }

    /// The names of the non-id fields, in declaration order.
    pub fn non_id_name_strings(&self) -> (names: Vec<String>)
        ensures
            names@.map_values(|s: String| s@) == non_id_names(self@.fields),
    {
        let mut names: Vec<String> = Vec::new();
        let mut i: usize = 0;
        while i < self.fields.len()
            invariant
                i <= self.fields.len(),
                names@.map_values(|s: String| s@) =~= non_id_names(self@.fields.take(i as int)),
            decreases self.fields.len() - i,
        {
            proof {
                assert(self@.fields.take(i + 1).drop_last() =~= self@.fields.take(i as int));
                assert(self@.fields.take(i + 1).last() == self@.fields[i as int]);
            }
            if !self.fields[i].is_id {
                let ghost before = names@;
                names.push(self.fields[i].name.clone());
                proof {
                    assert(names@.map_values(|s: String| s@) =~= before.map_values(
                        |s: String| s@,
                    ).push(self@.fields[i as int].name));
                }
            }
            i = i + 1;
        }
        proof {
            assert(self@.fields.take(self.fields.len() as int) =~= self@.fields);
        }
        names
    }

    /// The name of the id field.
    pub fn id_name_string(&self) -> (name: String)
        requires
            id_count(self@.fields) >= 1,
        ensures
            name@ == id_name(self@.fields),
    {
        let mut found: Option<String> = None;
        let mut i: usize = 0;
        while i < self.fields.len()
            invariant
                i <= self.fields.len(),
                id_count(self@.fields.take(i as int)) == 0 <==> found is None,
                found matches Some(name) ==> name@ == id_name(self@.fields.take(i as int)),
            decreases self.fields.len() - i,
        {
            proof {
                assert(self@.fields.take(i + 1).drop_last() =~= self@.fields.take(i as int));
                assert(self@.fields.take(i + 1).last() == self@.fields[i as int]);
            }
            if self.fields[i].is_id {
                found = Some(self.fields[i].name.clone());
            }
            i = i + 1;
        }
        proof {
            assert(self@.fields.take(self.fields.len() as int) =~= self@.fields);
        }
        match found {
            Some(name) => name,
            None => {
                proof {
                    assert(false);
                }
                String::new()
            },
        }
    }
}

} // verus!
