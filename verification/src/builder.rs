//! Extraction of a validated descriptor from a raw annotated type
//! definition.
//!
//! The concrete annotation syntax is an external concern: whatever parses
//! source text hands over a [`RawTypeDefinition`] holding the type's
//! shape, every table annotation found on it, and every member with its
//! id marker.  [`build`] checks the structural invariants and either
//! returns a well-formed [`SchemaDescriptor`] or reports every violation
//! found, in one pass, in a fixed order.  These are generation-time
//! failures: none of them ever reaches a run-time operation.

use vstd::prelude::*;
use vstd::string::StringExecFns;

use crate::descriptor::{
    all_fields_named, id_count, FieldDescriptor, FieldModel, SchemaDescriptor, SchemaModel,
};

verus! {

/// The shape of a raw type definition.  Only records can be mapped to a
/// table row; sum types and type unions are rejected.
#[derive(Clone, Copy, Debug, PartialEq, Eq, Structural)]
pub enum RawShape {
    /// A record with named (or positional) members.
    Record,
    /// A sum type.
    Sum,
    /// A type union.
    Union,
}

/// Mathematical model of one raw member.
pub struct RawFieldModel {
    pub name: Option<Seq<char>>,
    pub value_type: Seq<char>,
    pub is_id: bool,
}

/// One member of a raw type definition, before validation.
#[derive(Debug, Clone)]
pub struct RawField {
    /// The member's name; `None` for a positional-only member.
    pub name: Option<String>,
    /// The member's value type, carried verbatim.
    pub value_type: String,
    /// Whether the member carries the id marker.
    pub is_id: bool,
}

impl View for RawField {
    type V = RawFieldModel;

    open spec fn view(&self) -> RawFieldModel {
        RawFieldModel {
            name: match self.name {
                Some(n) => Some(n@),
                None => None,
            },
            value_type: self.value_type@,
            is_id: self.is_id,
        }
    }
}

/// Mathematical model of a raw type definition.
pub struct RawModel {
    pub record_name: Seq<char>,
    pub shape: RawShape,
    pub table_annotations: Seq<Seq<char>>,
    pub fields: Seq<RawFieldModel>,
}

/// A raw, unvalidated description of an annotated record type, as handed
/// over by the annotation surface.
#[derive(Debug, Clone)]
pub struct RawTypeDefinition {
    /// Identifier of the annotated type.
    pub record_name: String,
    /// Whether the type is a record, a sum type or a union.
    pub shape: RawShape,
    /// Every table annotation found on the type, in source order.
    pub table_annotations: Vec<String>,
    /// Every member, in declaration order.
    pub fields: Vec<RawField>,
}

impl View for RawTypeDefinition {
    type V = RawModel;

    open spec fn view(&self) -> RawModel {
        RawModel {
            record_name: self.record_name@,
            shape: self.shape,
            table_annotations: self.table_annotations@.map_values(|s: String| s@),
            fields: self.fields@.map_values(|f: RawField| f@),
        }
    }
}

/// The structural violations a raw type definition can carry.  Any of
/// them is fatal to generation.
#[derive(Clone, Copy, Debug, PartialEq, Eq, Structural)]
pub enum DescriptorError {
    /// The definition is not a record.
    UnsupportedShape,
    /// More than one table annotation is present.
    DuplicateTableAnnotation,
    /// No table annotation is present.
    MissingTableAnnotation,
    /// More than one member carries the id marker.
    DuplicateIdField,
    /// No member carries the id marker.
    MissingIdField,
    /// A member has no usable name.
    UnnamedField,
}

/// The diagnostic text of a violation.
pub open spec fn error_text(e: DescriptorError) -> Seq<char> {
    match e {
        DescriptorError::UnsupportedShape => "only record types can be mapped to a table"@,
        DescriptorError::DuplicateTableAnnotation => "only one table annotation is allowed"@,
        DescriptorError::MissingTableAnnotation => "a table annotation naming the database table is required"@,
        DescriptorError::DuplicateIdField => "only one field can carry the id marker"@,
        DescriptorError::MissingIdField => "a field carrying the id marker is required"@,
        DescriptorError::UnnamedField => "all fields must have names"@,
    }
}

impl DescriptorError {
    /// Renders the violation for a generation-time report.
    pub fn message(&self) -> (r: String)
        ensures
            r@ == error_text(*self),
    {
        match self {
            DescriptorError::UnsupportedShape => String::from_str(
                "only record types can be mapped to a table",
            ),
            DescriptorError::DuplicateTableAnnotation => String::from_str(
                "only one table annotation is allowed",
            ),
            DescriptorError::MissingTableAnnotation => String::from_str(
                "a table annotation naming the database table is required",
            ),
            DescriptorError::DuplicateIdField => String::from_str(
                "only one field can carry the id marker",
            ),
            DescriptorError::MissingIdField => String::from_str(
                "a field carrying the id marker is required",
            ),
            DescriptorError::UnnamedField => String::from_str("all fields must have names"),
        }
    }
}

/// Whether a raw member has a usable, nonempty name.
pub open spec fn field_named(f: RawFieldModel) -> bool {
    match f.name {
        Some(n) => n.len() != 0,
        None => false,
    }
}

/// How many raw members carry the id marker.
pub open spec fn raw_id_count(fields: Seq<RawFieldModel>) -> nat
    decreases fields.len(),
{
    if fields.len() == 0 {
        0
    } else {
        raw_id_count(fields.drop_last()) + if fields.last().is_id {
            1nat
        } else {
            0nat
        }
    }
}

/// Some raw member lacks a usable name.
pub open spec fn has_unnamed_field(fields: Seq<RawFieldModel>) -> bool {
    exists|i: int| 0 <= i < fields.len() && !field_named(#[trigger] fields[i])
}

/// The violations of a raw definition, in the order the builder reports
/// them.  All checks are independent: every violated check contributes
/// its error, in one pass.
pub open spec fn violations(r: RawModel) -> Seq<DescriptorError> {
    (if r.shape is Record {
        Seq::<DescriptorError>::empty()
    } else {
        seq![DescriptorError::UnsupportedShape]
    }) + (if r.table_annotations.len() > 1 {
        seq![DescriptorError::DuplicateTableAnnotation]
    } else {
        Seq::<DescriptorError>::empty()
    }) + (if r.table_annotations.len() == 0 {
        seq![DescriptorError::MissingTableAnnotation]
    } else {
        Seq::<DescriptorError>::empty()
    }) + (if raw_id_count(r.fields) > 1 {
        seq![DescriptorError::DuplicateIdField]
    } else {
        Seq::<DescriptorError>::empty()
    }) + (if raw_id_count(r.fields) == 0 {
        seq![DescriptorError::MissingIdField]
    } else {
        Seq::<DescriptorError>::empty()
    }) + (if has_unnamed_field(r.fields) {
        seq![DescriptorError::UnnamedField]
    } else {
        Seq::<DescriptorError>::empty()
    })
}

/// The field a named raw member validates to.
pub open spec fn validated_field(f: RawFieldModel) -> FieldModel {
    FieldModel {
        name: match f.name {
            Some(n) => n,
            None => Seq::empty(),
        },
        value_type: f.value_type,
        is_id: f.is_id,
    }
}

/// The descriptor a violation-free raw definition validates to: the one
/// table annotation as the table, and the members in declaration order —
/// no reordering, no deduplication.
pub open spec fn validated_model(r: RawModel) -> SchemaModel {
    SchemaModel {
        record_name: r.record_name,
        table_name: r.table_annotations[0],
        fields: r.fields.map_values(|f: RawFieldModel| validated_field(f)),
    }
}

proof fn lemma_validated_id_count(fields: Seq<RawFieldModel>)
    ensures
        id_count(fields.map_values(|f: RawFieldModel| validated_field(f))) == raw_id_count(
            fields,
        ),
    decreases fields.len(),
{
    let mapped = fields.map_values(|f: RawFieldModel| validated_field(f));
    if fields.len() == 0 {
    } else {
        lemma_validated_id_count(fields.drop_last());
        assert(mapped.drop_last() =~= fields.drop_last().map_values(
            |f: RawFieldModel| validated_field(f),
        ));
        assert(mapped.last() == validated_field(fields.last()));
    }
}

/// Validates a raw type definition.
///
/// On success the returned descriptor is well-formed and preserves the
/// member declaration order verbatim.  On failure the returned list holds
/// exactly the violations of the definition, every one found in one pass,
/// in the fixed order of [`violations`].
pub fn build(raw: &RawTypeDefinition) -> (result: Result<SchemaDescriptor, Vec<DescriptorError>>)
    ensures
        match result {
            Ok(d) => violations(raw@).len() == 0 && d@ == validated_model(raw@) && d.wf(),
            Err(errs) => errs@ == violations(raw@) && errs@.len() > 0,
        },
{
    let mut id_fields: usize = 0;
    let mut i: usize = 0;
    while i < raw.fields.len()
        invariant
            i <= raw.fields.len(),
            id_fields == raw_id_count(raw@.fields.take(i as int)),
            id_fields <= i,
        decreases raw.fields.len() - i,
    {
        proof {
            assert(raw@.fields.take(i + 1).drop_last() =~= raw@.fields.take(i as int));
            assert(raw@.fields.take(i + 1).last() == raw@.fields[i as int]);
        }
        if raw.fields[i].is_id {
            id_fields = id_fields + 1;
        }
        i = i + 1;
    }
    proof {
        assert(raw@.fields.take(raw.fields.len() as int) =~= raw@.fields);
    }

    let mut unnamed = false;
    let mut j: usize = 0;
    while j < raw.fields.len()
        invariant
            j <= raw.fields.len(),
            unnamed == has_unnamed_field(raw@.fields.take(j as int)),
        decreases raw.fields.len() - j,
    {
        proof {
            assert(raw@.fields.take(j + 1).drop_last() =~= raw@.fields.take(j as int));
            assert(raw@.fields.take(j + 1).last() == raw@.fields[j as int]);
        }
        let nameless = match &raw.fields[j].name {
            Some(n) => n.as_str().is_empty(),
            None => true,
        };
        proof {
            assert(nameless == !field_named(raw@.fields[j as int]));
            if nameless {
                assert(has_unnamed_field(raw@.fields.take(j + 1)));
            } else {
                assert(forall|k: int|
                    0 <= k < j + 1 && !field_named(#[trigger] raw@.fields.take(j + 1)[k])
                        ==> !field_named(raw@.fields.take(j as int)[k]));
            }
        }
        if nameless {
            unnamed = true;
        }
        j = j + 1;
    }
    proof {
        assert(raw@.fields.take(raw.fields.len() as int) =~= raw@.fields);
    }

    let mut errs: Vec<DescriptorError> = Vec::new();
    if !(raw.shape == RawShape::Record) {
        errs.push(DescriptorError::UnsupportedShape);
    }
    if raw.table_annotations.len() > 1 {
        errs.push(DescriptorError::DuplicateTableAnnotation);
    }
    if raw.table_annotations.len() == 0 {
        errs.push(DescriptorError::MissingTableAnnotation);
    }
    if id_fields > 1 {
        errs.push(DescriptorError::DuplicateIdField);
    }
    if id_fields == 0 {
        errs.push(DescriptorError::MissingIdField);
    }
    if unnamed {
        errs.push(DescriptorError::UnnamedField);
    }
    proof {
        assert(errs@ =~= violations(raw@));
    }

    if errs.len() > 0 {
        return Err(errs);
    }

    let mut fields: Vec<FieldDescriptor> = Vec::new();
    let mut k: usize = 0;
    while k < raw.fields.len()
        invariant
            k <= raw.fields.len(),
            !has_unnamed_field(raw@.fields),
            fields@.map_values(|f: FieldDescriptor| f@) =~= raw@.fields.take(
                k as int,
            ).map_values(|f: RawFieldModel| validated_field(f)),
        decreases raw.fields.len() - k,
    {
        proof {
            assert(field_named(raw@.fields[k as int]));
        }
        let name = match &raw.fields[k].name {
            Some(n) => n.clone(),
            None => {
                proof {
                    assert(false);
                }
                String::new()
            },
        };
        let ghost before = fields@;
        fields.push(
            FieldDescriptor {
                name,
                value_type: raw.fields[k].value_type.clone(),
                is_id: raw.fields[k].is_id,
            },
        );
        proof {
            assert(fields@.map_values(|f: FieldDescriptor| f@) =~= before.map_values(
                |f: FieldDescriptor| f@,
            ).push(validated_field(raw@.fields[k as int])));
            assert(raw@.fields.take(k + 1).map_values(
                |f: RawFieldModel| validated_field(f),
            ) =~= raw@.fields.take(k as int).map_values(
                |f: RawFieldModel| validated_field(f),
            ).push(validated_field(raw@.fields[k as int])));
        }
        k = k + 1;
    }
    proof {
        assert(raw@.fields.take(raw.fields.len() as int) =~= raw@.fields);
    }

    let d = SchemaDescriptor {
        record_name: raw.record_name.clone(),
        table_name: raw.table_annotations[0].clone(),
        fields,
    };
    proof {
        assert(d@.table_name == raw@.table_annotations[0]);
        assert(d@ == validated_model(raw@));
        lemma_validated_id_count(raw@.fields);
        assert forall|i2: int| 0 <= i2 < d@.fields.len() implies (
        #[trigger] d@.fields[i2]).name.len() != 0 by {
            assert(field_named(raw@.fields[i2]));
            assert(d@.fields[i2] == validated_field(raw@.fields[i2]));
        }
        assert(all_fields_named(d@.fields));
    }
    Ok(d)
}

/// A definition with more than one id-marked member is rejected with
/// `DuplicateIdField` among the reported violations, and one with no
/// table annotation is rejected with `MissingTableAnnotation` among them.
pub proof fn lemma_rejected_definitions(r: RawModel)
    ensures
        raw_id_count(r.fields) > 1 ==> violations(r).contains(DescriptorError::DuplicateIdField),
        r.table_annotations.len() == 0 ==> violations(r).contains(
            DescriptorError::MissingTableAnnotation,
        ),
{
    let s1: Seq<DescriptorError> = if r.shape is Record {
        Seq::empty()
    } else {
        seq![DescriptorError::UnsupportedShape]
    };
    let s2: Seq<DescriptorError> = if r.table_annotations.len() > 1 {
        seq![DescriptorError::DuplicateTableAnnotation]
    } else {
        Seq::empty()
    };
    let s3: Seq<DescriptorError> = if r.table_annotations.len() == 0 {
        seq![DescriptorError::MissingTableAnnotation]
    } else {
        Seq::empty()
    };
    let s4: Seq<DescriptorError> = if raw_id_count(r.fields) > 1 {
        seq![DescriptorError::DuplicateIdField]
    } else {
        Seq::empty()
    };
    if raw_id_count(r.fields) > 1 {
        let idx = s1.len() + s2.len() + s3.len();
        assert(violations(r)[idx as int] == DescriptorError::DuplicateIdField);
    }
    if r.table_annotations.len() == 0 {
        let idx = s1.len() + s2.len();
        assert(violations(r)[idx as int] == DescriptorError::MissingTableAnnotation);
    }
}

} // verus!
