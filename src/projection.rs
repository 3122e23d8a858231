//! The nested-field projector: adapts a batch schema holding composite
//! columns to an encoder that only accepts scalar columns.

use crate::formats::NestedFieldFormat;
use vstd::prelude::*;

verus! {

/// One field of a batch schema, as far as projection reads it.
pub struct FieldInfo {
    pub name: String,
    /// True iff the field's type is a composite container (list, map, struct).
    pub nested: bool,
}

/// What becomes of one column of the input batch in the projected batch.
#[derive(Clone, Copy, Debug, PartialEq, Eq)]
pub enum ColumnAction {
    /// The input column at this index, unchanged.
    Keep(usize),
    /// The input column at this index, each value replaced by its JSON text.
    Encode(usize),
}

/// The failure of the `Error` policy: every nested field, in schema order.
pub struct NestedFieldsError {
    pub fields: Vec<String>,
}

/// Names of the nested fields, in schema order.
pub open spec fn nested_names(fields: Seq<FieldInfo>) -> Seq<Seq<char>>
    decreases fields.len(),
{
    if fields.len() == 0 {
        seq![]
    } else {
        let rest = nested_names(fields.drop_last());
        if fields.last().nested {
            rest.push(fields.last().name@)
        } else {
            rest
        }
    }
}

/// Every column kept unchanged.
pub open spec fn identity_columns(n: nat) -> Seq<ColumnAction> {
    Seq::new(n, |i: int| ColumnAction::Keep(i as usize))
}

/// The scalar columns, kept unchanged in schema order.
pub open spec fn scalar_columns(fields: Seq<FieldInfo>) -> Seq<ColumnAction>
    decreases fields.len(),
{
    if fields.len() == 0 {
        seq![]
    } else {
        let rest = scalar_columns(fields.drop_last());
        if fields.last().nested {
            rest
        } else {
            rest.push(ColumnAction::Keep((fields.len() - 1) as usize))
        }
    }
}

/// Every column in schema order, the nested ones turned into JSON text.
pub open spec fn encoded_columns(fields: Seq<FieldInfo>) -> Seq<ColumnAction> {
    Seq::new(
        fields.len(),
        |i: int|
            if fields[i].nested {
                ColumnAction::Encode(i as usize)
            } else {
                ColumnAction::Keep(i as usize)
            },
    )
}

/// The projection that a policy asks for: the columns of the output batch,
/// or the nested field names that make the `Error` policy fail.
pub open spec fn projection(fields: Seq<FieldInfo>, policy: NestedFieldFormat) -> Result<
    Seq<ColumnAction>,
    Seq<Seq<char>>,
> {
    match policy {
        NestedFieldFormat::Error => if nested_names(fields).len() == 0 {
            Ok(identity_columns(fields.len()))
        } else {
            Err(nested_names(fields))
        },
        NestedFieldFormat::Omit => Ok(scalar_columns(fields)),
        NestedFieldFormat::Json => Ok(encoded_columns(fields)),
    }
}

/// Name and nestedness of the output field that a column action yields.
pub open spec fn output_field(fields: Seq<FieldInfo>, action: ColumnAction) -> (Seq<char>, bool) {
    match action {
        ColumnAction::Keep(i) => (fields[i as int].name@, fields[i as int].nested),
        ColumnAction::Encode(i) => (fields[i as int].name@, false),
    }
}

/// The schema of the output batch: name and nestedness of each field.
pub open spec fn output_schema(fields: Seq<FieldInfo>, plan: Seq<ColumnAction>) -> Seq<
    (Seq<char>, bool),
> {
    Seq::new(plan.len(), |j: int| output_field(fields, plan[j]))
}

/// The input schema without its nested fields.
pub open spec fn scalar_schema(fields: Seq<FieldInfo>) -> Seq<(Seq<char>, bool)>
    decreases fields.len(),
{
    if fields.len() == 0 {
        seq![]
    } else {
        let rest = scalar_schema(fields.drop_last());
        if fields.last().nested {
            rest
        } else {
            rest.push((fields.last().name@, false))
        }
    }
}

/// The views of a list of strings.
pub open spec fn string_views(v: Seq<String>) -> Seq<Seq<char>> {
    v.map_values(|s: String| s@)
}

/// Plans the projection of a batch with schema `fields` under `nested_format`:
/// the columns of the output batch in order, or, under the `Error` policy
/// with a nested field present, every nested field name.
pub fn nested_fields_to_json(fields: &Vec<FieldInfo>, nested_format: NestedFieldFormat) -> (r:
    Result<Vec<ColumnAction>, NestedFieldsError>)
    ensures
        match r {
            Ok(plan) => projection(fields@, nested_format) == Ok::<_, Seq<Seq<char>>>(plan@),
            Err(e) => projection(fields@, nested_format) == Err::<Seq<ColumnAction>, _>(
                string_views(e.fields@),
            ),
        },
{
    match nested_format {
        NestedFieldFormat::Error => {
            let names = nested_field_names(fields);
            if names.len() == 0 {
                Ok(keep_all(fields.len()))
            } else {
                Err(NestedFieldsError { fields: names })
            }
        },
        NestedFieldFormat::Omit => Ok(keep_scalars(fields)),
        NestedFieldFormat::Json => Ok(encode_nested(fields)),
    }
}

/// Names of the nested fields of a schema, in order.
pub fn nested_field_names(fields: &Vec<FieldInfo>) -> (r: Vec<String>)
    ensures
        string_views(r@) == nested_names(fields@),
{
    let mut names: Vec<String> = Vec::new();
    let mut i: usize = 0;
    while i < fields.len()
        invariant
            i <= fields.len(),
            string_views(names@) == nested_names(fields@.take(i as int)),
        decreases fields.len() - i,
    {
        assert(fields@.take(i + 1).drop_last() =~= fields@.take(i as int));
        if fields[i].nested {
            let name = fields[i].name.clone();
            names.push(name);
            assert(string_views(names@) =~= string_views(names@.drop_last()).push(name@));
        }
        i = i + 1;
    }
    assert(fields@.take(i as int) =~= fields@);
    names
}

fn keep_all(n: usize) -> (r: Vec<ColumnAction>)
    ensures
        r@ == identity_columns(n as nat),
{
    let mut out: Vec<ColumnAction> = Vec::new();
    let mut i: usize = 0;
    while i < n
        invariant
            i <= n,
            out@ =~= identity_columns(i as nat),
        decreases n - i,
    {
        out.push(ColumnAction::Keep(i));
        i = i + 1;
    }
    out
}

fn keep_scalars(fields: &Vec<FieldInfo>) -> (r: Vec<ColumnAction>)
    ensures
        r@ == scalar_columns(fields@),
{
    let mut out: Vec<ColumnAction> = Vec::new();
    let mut i: usize = 0;
    while i < fields.len()
        invariant
            i <= fields.len(),
            out@ == scalar_columns(fields@.take(i as int)),
        decreases fields.len() - i,
    {
        assert(fields@.take(i + 1).drop_last() =~= fields@.take(i as int));
        if !fields[i].nested {
            out.push(ColumnAction::Keep(i));
        }
        i = i + 1;
    }
    assert(fields@.take(i as int) =~= fields@);
    out
}

fn encode_nested(fields: &Vec<FieldInfo>) -> (r: Vec<ColumnAction>)
    ensures
        r@ == encoded_columns(fields@),
{
    let mut out: Vec<ColumnAction> = Vec::new();
    let mut i: usize = 0;
    while i < fields.len()
        invariant
            i <= fields.len(),
            out@ =~= encoded_columns(fields@.take(i as int)),
        decreases fields.len() - i,
    {
        if fields[i].nested {
            out.push(ColumnAction::Encode(i));
        } else {
            out.push(ColumnAction::Keep(i));
        }
        i = i + 1;
    }
    assert(fields@.take(i as int) =~= fields@);
    out
}

/// There are no nested names exactly when no field is nested.
pub proof fn lemma_nested_names_empty(fields: Seq<FieldInfo>)
    ensures
        nested_names(fields).len() == 0 <==> forall|i: int|
            0 <= i < fields.len() ==> !(#[trigger] fields[i]).nested,
    decreases fields.len(),
{
    if fields.len() > 0 {
        let init = fields.drop_last();
        lemma_nested_names_empty(init);
        if nested_names(fields).len() == 0 {
            assert forall|i: int| 0 <= i < fields.len() implies !(#[trigger] fields[i]).nested by {
                if i < fields.len() - 1 {
                    assert(fields[i] == init[i]);
                }
            }
        } else {
            if forall|i: int| 0 <= i < fields.len() ==> !(#[trigger] fields[i]).nested {
                assert forall|i: int| 0 <= i < init.len() implies !(#[trigger] init[i]).nested by {
                    assert(init[i] == fields[i]);
                }
                assert(!fields[fields.len() - 1].nested);
            }
        }
    }
}

/// Law of the `Error` policy: it fails exactly when some field is nested,
/// and then reports the names of all nested fields, in schema order;
/// otherwise the batch passes unchanged.
pub proof fn lemma_error_policy(fields: Seq<FieldInfo>)
    ensures
        projection(fields, NestedFieldFormat::Error) is Err <==> exists|i: int|
            0 <= i < fields.len() && (#[trigger] fields[i]).nested,
        projection(fields, NestedFieldFormat::Error) is Err ==> projection(
            fields,
            NestedFieldFormat::Error,
        ) == Err::<Seq<ColumnAction>, _>(nested_names(fields)),
        projection(fields, NestedFieldFormat::Error) is Ok ==> projection(
            fields,
            NestedFieldFormat::Error,
        ) == Ok::<_, Seq<Seq<char>>>(identity_columns(fields.len())),
{
    lemma_nested_names_empty(fields);
}

/// Law of the `Omit` policy: the output schema is the input schema without
/// its nested fields, and every output column is an input column unchanged.
pub proof fn lemma_omit_policy(fields: Seq<FieldInfo>)
    requires
        fields.len() <= usize::MAX,
    ensures
        output_schema(fields, scalar_columns(fields)) == scalar_schema(fields),
        forall|j: int|
            0 <= j < scalar_columns(fields).len() ==> (#[trigger] scalar_columns(fields)[j]) is Keep,
    decreases fields.len(),
{
    lemma_scalar_columns_keep(fields);
    if fields.len() > 0 {
        let init = fields.drop_last();
        lemma_omit_policy(init);
        lemma_scalar_columns_keep(init);
        let sc = scalar_columns(init);
        assert forall|j: int| 0 <= j < sc.len() implies #[trigger] output_field(fields, sc[j])
            == output_field(init, sc[j]) by {
            let i = sc[j]->Keep_0;
            assert(fields[i as int] == init[i as int]);
        }
        assert(output_schema(fields, scalar_columns(fields)) =~= scalar_schema(fields));
    }
}

/// Every column kept under `Omit` is an earlier scalar field, unchanged.
proof fn lemma_scalar_columns_keep(fields: Seq<FieldInfo>)
    requires
        fields.len() <= usize::MAX,
    ensures
        forall|j: int|
            0 <= j < scalar_columns(fields).len() ==> {
                let a = #[trigger] scalar_columns(fields)[j];
                &&& a is Keep
                &&& a->Keep_0 < fields.len()
                &&& !fields[a->Keep_0 as int].nested
            },
    decreases fields.len(),
{
    if fields.len() > 0 {
        let init = fields.drop_last();
        lemma_scalar_columns_keep(init);
        let sc = scalar_columns(fields);
        assert forall|j: int| 0 <= j < sc.len() implies {
            let a = #[trigger] sc[j];
            &&& a is Keep
            &&& a->Keep_0 < fields.len()
            &&& !fields[a->Keep_0 as int].nested
        } by {
            if j < scalar_columns(init).len() {
                let i = scalar_columns(init)[j]->Keep_0;
                assert(fields[i as int] == init[i as int]);
            }
        }
    }
}

/// Law of the `Json` policy: the output has every input field, in order and
/// under its name; scalar columns pass unchanged, nested ones become JSON text.
pub proof fn lemma_json_policy(fields: Seq<FieldInfo>)
    requires
        fields.len() <= usize::MAX,
    ensures
        output_schema(fields, encoded_columns(fields)).len() == fields.len(),
        forall|i: int|
            0 <= i < fields.len() ==> (#[trigger] output_schema(fields, encoded_columns(fields))[i])
                == (fields[i].name@, false),
        forall|i: int|
            0 <= i < fields.len() ==> (#[trigger] encoded_columns(fields)[i]) == if fields[i].nested {
                ColumnAction::Encode(i as usize)
            } else {
                ColumnAction::Keep(i as usize)
            },
{
}

/// Law of projection: whenever it succeeds, under any policy, the output
/// batch has no nested field.
pub proof fn lemma_projection_is_scalar(fields: Seq<FieldInfo>, policy: NestedFieldFormat)
    requires
        fields.len() <= usize::MAX,
    ensures
        projection(fields, policy) is Ok ==> forall|j: int|
            0 <= j < output_schema(fields, projection(fields, policy)->Ok_0).len() ==> !(
            #[trigger] output_schema(fields, projection(fields, policy)->Ok_0)[j]).1,
{
    lemma_nested_names_empty(fields);
    lemma_scalar_columns_keep(fields);
    if projection(fields, policy) is Ok {
        let out = output_schema(fields, projection(fields, policy)->Ok_0);
        assert forall|j: int| 0 <= j < out.len() implies !(#[trigger] out[j]).1 by {
            if policy == NestedFieldFormat::Omit {
                let i = scalar_columns(fields)[j]->Keep_0;
                assert(!fields[i as int].nested);
            }
        }
    }
}

} // verus!
