//! Deterministic synthesis of SQL text from a validated descriptor.
//!
//! Every routine is a pure function of the descriptor: the statement text
//! is pinned, character for character, by the spec functions below, so two
//! runs on equal descriptors yield identical text.  Column and parameter
//! order is the field declaration order with the id field excluded; the
//! update statement binds the id parameter last.  Table and column names
//! are inserted verbatim — identifiers are the descriptor's concern, not
//! the synthesizer's.

use vstd::prelude::*;
use vstd::string::StringExecFns;

use crate::descriptor::{id_name, non_id_names, FieldModel, SchemaDescriptor, SchemaModel};

verus! {

/// `parts` laid end to end with `sep` between consecutive parts.
pub open spec fn joined(parts: Seq<Seq<char>>, sep: Seq<char>) -> Seq<char>
    decreases parts.len(),
{
    if parts.len() == 0 {
        Seq::empty()
    } else if parts.len() == 1 {
        parts[0]
    } else {
        joined(parts.drop_last(), sep) + sep + parts.last()
    }
}

/// `n` placeholders, one per bound parameter.
pub open spec fn placeholder_list(n: nat) -> Seq<Seq<char>> {
    Seq::new(n, |i: int| "?"@)
}

/// One `name = ?` assignment per non-id column, in declaration order.
pub open spec fn assignment_list(names: Seq<Seq<char>>) -> Seq<Seq<char>> {
    names.map_values(|n: Seq<char>| n + " = ?"@)
}

/// The id column first, then the non-id columns in declaration order.
pub open spec fn returning_list(fields: Seq<FieldModel>) -> Seq<Seq<char>> {
    seq![id_name(fields)] + non_id_names(fields)
}

/// The create statement: insert the non-id columns in declaration order,
/// one placeholder per column, and return the id column followed by the
/// non-id columns.
pub open spec fn create_query_model(m: SchemaModel) -> Seq<char> {
    "INSERT INTO "@ + m.table_name + " ("@ + joined(non_id_names(m.fields), ", "@)
        + ") VALUES ("@ + joined(
        placeholder_list(non_id_names(m.fields).len()),
        ", "@,
    ) + ") RETURNING "@ + joined(returning_list(m.fields), ", "@)
}

/// The read-by-key statement, shared by the lazy and the single-record
/// read: select every row whose id column equals the one placeholder.
pub open spec fn read_by_key_query_model(m: SchemaModel) -> Seq<char> {
    "SELECT * FROM "@ + m.table_name + " WHERE "@ + id_name(m.fields) + " = ?"@
}

/// The read-all statement: select every row of the table.
pub open spec fn read_all_query_model(m: SchemaModel) -> Seq<char> {
    "SELECT * FROM "@ + m.table_name
}

/// The update statement: one `name = ?` per non-id column in declaration
/// order, the id placeholder last.
pub open spec fn update_query_model(m: SchemaModel) -> Seq<char> {
    "UPDATE "@ + m.table_name + " SET "@ + joined(
        assignment_list(non_id_names(m.fields)),
        ", "@,
    ) + " WHERE "@ + id_name(m.fields) + " = ?"@
}

/// The delete statement: remove every row whose id column equals the one
/// placeholder.
pub open spec fn delete_query_model(m: SchemaModel) -> Seq<char> {
    "DELETE FROM "@ + m.table_name + " WHERE "@ + id_name(m.fields) + " = ?"@
}

/// Joins the given parts with `sep` between consecutive parts.
fn join_parts(parts: &Vec<String>, sep: &str) -> (r: String)
    ensures
        r@ == joined(parts@.map_values(|s: String| s@), sep@),
{
    let ghost part_views = parts@.map_values(|s: String| s@);
    let mut r = String::new();
    let mut i: usize = 0;
    while i < parts.len()
        invariant
            i <= parts.len(),
            part_views == parts@.map_values(|s: String| s@),
            r@ == joined(part_views.take(i as int), sep@),
        decreases parts.len() - i,
    {
        proof {
            assert(part_views.take(i + 1).drop_last() =~= part_views.take(i as int));
            assert(part_views.take(i + 1).last() == part_views[i as int]);
        }
        if i > 0 {
            r.append(sep);
        }
        r.append(parts[i].as_str());
        proof {
            if i == 0 {
                assert(r@ =~= joined(part_views.take(1), sep@));
            }
        }
        i = i + 1;
    }
    proof {
        assert(part_views.take(parts.len() as int) =~= part_views);
    }
    r
}

/// One placeholder string per bound parameter.
fn placeholder_strings(n: usize) -> (v: Vec<String>)
    ensures
        v@.map_values(|s: String| s@) == placeholder_list(n as nat),
{
    let mut v: Vec<String> = Vec::new();
    let mut i: usize = 0;
    while i < n
        invariant
            i <= n,
            v@.map_values(|s: String| s@) =~= placeholder_list(i as nat),
        decreases n - i,
    {
        let ghost before = v@;
        v.push(String::from_str("?"));
        proof {
            assert(v@.map_values(|s: String| s@) =~= before.map_values(|s: String| s@).push(
                "?"@,
            ));
            assert(placeholder_list((i + 1) as nat) =~= placeholder_list(i as nat).push("?"@));
        }
        i = i + 1;
    }
    proof {
        assert(placeholder_list(n as nat) =~= v@.map_values(|s: String| s@));
    }
    v
}

/// One `name = ?` assignment per given column name, in order.
fn assignment_strings(names: &Vec<String>) -> (v: Vec<String>)
    ensures
        v@.map_values(|s: String| s@) == assignment_list(names@.map_values(|s: String| s@)),
{
    let ghost name_views = names@.map_values(|s: String| s@);
    let mut v: Vec<String> = Vec::new();
    let mut i: usize = 0;
    while i < names.len()
        invariant
            i <= names.len(),
            name_views == names@.map_values(|s: String| s@),
            v@.map_values(|s: String| s@) =~= assignment_list(name_views.take(i as int)),
        decreases names.len() - i,
    {
        let ghost before = v@;
        let clause = names[i].clone().concat(" = ?");
        v.push(clause);
        proof {
            assert(v@.map_values(|s: String| s@) =~= before.map_values(|s: String| s@).push(
                name_views[i as int] + " = ?"@,
            ));
            assert(assignment_list(name_views.take(i + 1)) =~= assignment_list(
                name_views.take(i as int),
            ).push(name_views[i as int] + " = ?"@));
        }
        i = i + 1;
    }
    proof {
        assert(name_views.take(names.len() as int) =~= name_views);
    }
    v
}

/// Synthesizes the create statement for `d`.
pub fn create_query(d: &SchemaDescriptor) -> (q: String)
    requires
        d.wf(),
    ensures
        q@ == create_query_model(d@),
{
    let names = d.non_id_name_strings();
    let columns = join_parts(&names, ", ");
    let placeholders = join_parts(&placeholder_strings(names.len()), ", ");

    let mut returned: Vec<String> = Vec::new();
    returned.push(d.id_name_string());
    let mut i: usize = 0;
    while i < names.len()
        invariant
            i <= names.len(),
            names@.map_values(|s: String| s@) == non_id_names(d@.fields),
            returned@.map_values(|s: String| s@) =~= seq![id_name(d@.fields)] + non_id_names(
                d@.fields,
            ).take(i as int),
        decreases names.len() - i,
    {
        let ghost before = returned@;
        returned.push(names[i].clone());
        proof {
            assert(returned@.map_values(|s: String| s@) =~= before.map_values(|s: String| s@)
                .push(non_id_names(d@.fields)[i as int]));
        }
        i = i + 1;
    }
    proof {
        assert(non_id_names(d@.fields).take(names.len() as int) =~= non_id_names(d@.fields));
        assert(returned@.map_values(|s: String| s@) =~= returning_list(d@.fields));
    }
    let returning = join_parts(&returned, ", ");

    let mut q = String::new();
    q.append("INSERT INTO ");
    q.append(d.table_name.as_str());
    q.append(" (");
    q.append(columns.as_str());
    q.append(") VALUES (");
    q.append(placeholders.as_str());
    q.append(") RETURNING ");
    q.append(returning.as_str());
    proof {
        assert(q@ =~= create_query_model(d@));
    }
    q
}

/// Synthesizes the read-by-key statement for `d`.
pub fn read_by_key_query(d: &SchemaDescriptor) -> (q: String)
    requires
        d.wf(),
    ensures
        q@ == read_by_key_query_model(d@),
{
    let mut q = String::new();
    q.append("SELECT * FROM ");
    q.append(d.table_name.as_str());
    q.append(" WHERE ");
    q.append(d.id_name_string().as_str());
    q.append(" = ?");
    proof {
        assert(q@ =~= read_by_key_query_model(d@));
    }
    q
}

/// Synthesizes the read-all statement for `d`.
pub fn read_all_query(d: &SchemaDescriptor) -> (q: String)
    ensures
        q@ == read_all_query_model(d@),
{
    let mut q = String::new();
    q.append("SELECT * FROM ");
    q.append(d.table_name.as_str());
    proof {
        assert(q@ =~= read_all_query_model(d@));
    }
    q
}

/// Synthesizes the update statement for `d`.
pub fn update_query(d: &SchemaDescriptor) -> (q: String)
    requires
        d.wf(),
    ensures
        q@ == update_query_model(d@),
{
    let names = d.non_id_name_strings();
    let assignments = join_parts(&assignment_strings(&names), ", ");

    let mut q = String::new();
    q.append("UPDATE ");
    q.append(d.table_name.as_str());
    q.append(" SET ");
    q.append(assignments.as_str());
    q.append(" WHERE ");
    q.append(d.id_name_string().as_str());
    q.append(" = ?");
    proof {
        assert(q@ =~= update_query_model(d@));
    }
    q
}

/// Synthesizes the delete statement for `d`.
pub fn delete_query(d: &SchemaDescriptor) -> (q: String)
    requires
        d.wf(),
    ensures
        q@ == delete_query_model(d@),
{
    let mut q = String::new();
    q.append("DELETE FROM ");
    q.append(d.table_name.as_str());
    q.append(" WHERE ");
    q.append(d.id_name_string().as_str());
    q.append(" = ?");
    proof {
        assert(q@ =~= delete_query_model(d@));
    }
    q
}

/// How many times `c` occurs in `s`.
pub open spec fn occurrences(s: Seq<char>, c: char) -> nat
    decreases s.len(),
{
    if s.len() == 0 {
        0
    } else {
        occurrences(s.drop_last(), c) + if s.last() == c {
            1nat
        } else {
            0nat
        }
    }
}

/// `s` holds no occurrence of `c`.
pub open spec fn char_free(s: Seq<char>, c: char) -> bool {
    forall|i: int| 0 <= i < s.len() ==> s[i] != c
}

proof fn lemma_occurrences_concat(a: Seq<char>, b: Seq<char>, c: char)
    ensures
        occurrences(a + b, c) == occurrences(a, c) + occurrences(b, c),
    decreases b.len(),
{
    if b.len() == 0 {
        assert(a + b =~= a);
    } else {
        assert((a + b).drop_last() =~= a + b.drop_last());
        lemma_occurrences_concat(a, b.drop_last(), c);
    }
}

proof fn lemma_char_free_occurrences(s: Seq<char>, c: char)
    requires
        char_free(s, c),
    ensures
        occurrences(s, c) == 0,
    decreases s.len(),
{
    if s.len() > 0 {
        lemma_char_free_occurrences(s.drop_last(), c);
    }
}

proof fn lemma_joined_char_free(parts: Seq<Seq<char>>, sep: Seq<char>, c: char)
    requires
        char_free(sep, c),
        forall|i: int| 0 <= i < parts.len() ==> char_free(#[trigger] parts[i], c),
    ensures
        occurrences(joined(parts, sep), c) == 0,
    decreases parts.len(),
{
    if parts.len() == 0 {
    } else if parts.len() == 1 {
        lemma_char_free_occurrences(parts[0], c);
    } else {
        lemma_joined_char_free(parts.drop_last(), sep, c);
        lemma_occurrences_concat(joined(parts.drop_last(), sep), sep, c);
        lemma_occurrences_concat(joined(parts.drop_last(), sep) + sep, parts.last(), c);
        lemma_char_free_occurrences(sep, c);
        lemma_char_free_occurrences(parts.last(), c);
    }
}

proof fn lemma_joined_single_occurrence(parts: Seq<Seq<char>>, sep: Seq<char>, c: char)
    requires
        char_free(sep, c),
        forall|i: int| 0 <= i < parts.len() ==> occurrences(#[trigger] parts[i], c) == 1,
    ensures
        occurrences(joined(parts, sep), c) == parts.len(),
    decreases parts.len(),
{
    if parts.len() == 0 {
    } else if parts.len() == 1 {
        assert(occurrences(parts[0], c) == 1);
    } else {
        lemma_joined_single_occurrence(parts.drop_last(), sep, c);
        lemma_occurrences_concat(joined(parts.drop_last(), sep), sep, c);
        lemma_occurrences_concat(joined(parts.drop_last(), sep) + sep, parts.last(), c);
        lemma_char_free_occurrences(sep, c);
    }
}

/// The name of every column the synthesizer emits — the id column and the
/// non-id columns alike — is one of the declared field names, so a mark
/// absent from every field name is absent from all of them.
proof fn lemma_names_inherit_char_free(fields: Seq<FieldModel>, c: char)
    requires
        forall|i: int| 0 <= i < fields.len() ==> char_free((#[trigger] fields[i]).name, c),
    ensures
        char_free(id_name(fields), c),
        forall|j: int| 0 <= j < non_id_names(fields).len() ==> char_free(
            #[trigger] non_id_names(fields)[j],
            c,
        ),
    decreases fields.len(),
{
    if fields.len() == 0 {
    } else {
        assert(forall|i: int|
            0 <= i < fields.drop_last().len() ==> char_free(
                (#[trigger] fields.drop_last()[i]).name,
                c,
            ));
        lemma_names_inherit_char_free(fields.drop_last(), c);
        assert(fields.last() == fields[fields.len() - 1]);
        let rest = non_id_names(fields.drop_last());
        if fields.last().is_id {
            assert(non_id_names(fields) =~= rest);
        } else {
            assert(non_id_names(fields) =~= rest.push(fields.last().name));
            assert forall|j: int| 0 <= j < non_id_names(fields).len() implies char_free(
                #[trigger] non_id_names(fields)[j],
                c,
            ) by {
                if j < rest.len() {
                    assert(non_id_names(fields)[j] == rest[j]);
                } else {
                    assert(non_id_names(fields)[j] == fields.last().name);
                }
            }
        }
    }
}

/// The synthesized create statement for a descriptor with `k` non-id
/// fields has exactly `k` placeholders, and its RETURNING clause lists
/// the id column followed by the `k` non-id columns in declaration order.
///
/// The count is stated over occurrences of the placeholder mark, so it
/// asks that the table name and the field names are free of that mark —
/// identifiers are validated by the descriptor's naming rules, not here.
pub proof fn lemma_create_placeholder_count(m: SchemaModel)
    requires
        char_free(m.table_name, '?'),
        forall|i: int| 0 <= i < m.fields.len() ==> char_free((#[trigger] m.fields[i]).name, '?'),
    ensures
        occurrences(create_query_model(m), '?') == non_id_names(m.fields).len(),
        returning_list(m.fields) == seq![id_name(m.fields)] + non_id_names(m.fields),
{
    let k = non_id_names(m.fields).len();
    reveal_strlit("INSERT INTO ");
    reveal_strlit(" (");
    reveal_strlit(") VALUES (");
    reveal_strlit(") RETURNING ");
    reveal_strlit(", ");
    reveal_strlit("?");

    lemma_names_inherit_char_free(m.fields, '?');

    assert(char_free("INSERT INTO "@, '?'));
    assert(char_free(" ("@, '?'));
    assert(char_free(") VALUES ("@, '?'));
    assert(char_free(") RETURNING "@, '?'));
    assert(char_free(", "@, '?'));

    lemma_joined_char_free(non_id_names(m.fields), ", "@, '?');

    assert(("?"@).drop_last().len() == 0);
    assert(occurrences(("?"@).drop_last(), '?') == 0);
    assert(("?"@).last() == '?');
    assert(occurrences("?"@, '?') == 1);
    assert(forall|i: int|
        0 <= i < k ==> occurrences(#[trigger] placeholder_list(k)[i], '?') == 1);
    lemma_joined_single_occurrence(placeholder_list(k), ", "@, '?');

    assert(forall|j: int|
        0 <= j < returning_list(m.fields).len() ==> char_free(
            #[trigger] returning_list(m.fields)[j],
            '?',
        ));
    lemma_joined_char_free(returning_list(m.fields), ", "@, '?');

    let acc1 = "INSERT INTO "@ + m.table_name;
    let acc2 = acc1 + " ("@;
    let acc3 = acc2 + joined(non_id_names(m.fields), ", "@);
    let acc4 = acc3 + ") VALUES ("@;
    let acc5 = acc4 + joined(placeholder_list(k), ", "@);
    let acc6 = acc5 + ") RETURNING "@;
    lemma_char_free_occurrences("INSERT INTO "@, '?');
    lemma_char_free_occurrences(m.table_name, '?');
    lemma_char_free_occurrences(" ("@, '?');
    lemma_char_free_occurrences(") VALUES ("@, '?');
    lemma_char_free_occurrences(") RETURNING "@, '?');
    lemma_occurrences_concat("INSERT INTO "@, m.table_name, '?');
    lemma_occurrences_concat(acc1, " ("@, '?');
    lemma_occurrences_concat(acc2, joined(non_id_names(m.fields), ", "@), '?');
    lemma_occurrences_concat(acc3, ") VALUES ("@, '?');
    lemma_occurrences_concat(acc4, joined(placeholder_list(k), ", "@), '?');
    lemma_occurrences_concat(acc5, ") RETURNING "@, '?');
    lemma_occurrences_concat(acc6, joined(returning_list(m.fields), ", "@), '?');
}

/// The non-id column list of create and update is exactly the field
/// declaration order with the id field removed: the recursive projection
/// the statement models are built from agrees with filtering out the id
/// field and taking the names of what remains, in order.
pub proof fn lemma_column_order_matches_declaration(fields: Seq<FieldModel>)
    ensures
        non_id_names(fields) == fields.filter(|f: FieldModel| !f.is_id).map_values(
            |f: FieldModel| f.name,
        ),
    decreases fields.len(),
{
    reveal(Seq::filter);
    let pred = |f: FieldModel| !f.is_id;
    let name_of = |f: FieldModel| f.name;
    if fields.len() == 0 {
        assert(non_id_names(fields) =~= fields.filter(pred).map_values(name_of));
    } else {
        lemma_column_order_matches_declaration(fields.drop_last());
        if pred(fields.last()) {
            assert(fields.filter(pred).map_values(name_of) =~= fields.drop_last().filter(
                pred,
            ).map_values(name_of).push(fields.last().name));
            assert(non_id_names(fields) =~= non_id_names(fields.drop_last()).push(
                fields.last().name,
            ));
        } else {
            assert(fields.filter(pred) == fields.drop_last().filter(pred));
            assert(non_id_names(fields) =~= non_id_names(fields.drop_last()));
        }
    }
}

/// Synthesis is deterministic: the statement text is a function of the
/// descriptor model alone, so any two descriptors with equal models — in
/// particular, the same descriptor twice — yield identical text for every
/// operation.
pub proof fn lemma_synthesis_deterministic(d1: SchemaDescriptor, d2: SchemaDescriptor)
    requires
        d1@ == d2@,
    ensures
        create_query_model(d1@) == create_query_model(d2@),
        read_by_key_query_model(d1@) == read_by_key_query_model(d2@),
        read_all_query_model(d1@) == read_all_query_model(d2@),
        update_query_model(d1@) == update_query_model(d2@),
        delete_query_model(d1@) == delete_query_model(d2@),
{
}

} // verus!
