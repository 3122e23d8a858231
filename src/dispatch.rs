//! The format dispatcher's decision for each batch pulled from the decoder.

use crate::formats::Formats;
use crate::limiter::{admitted, remaining, RowLimiter};
use crate::projection::{nested_fields_to_json, projection, string_views, ColumnAction, FieldInfo, NestedFieldsError};
use vstd::prelude::*;

verus! {

/// How to render one batch: the projection of its columns (`None`: all
/// columns as they are), how many of its leading rows to emit, and whether
/// anything is forwarded to the encoder at all (never an empty batch).
pub struct BatchPlan {
    pub columns: Option<Vec<ColumnAction>>,
    pub rows: usize,
    pub forward: bool,
}

/// Decides how a batch of `num_rows` rows with schema `fields` is rendered
/// in `format`. A tabular format first projects the batch under its
/// nested-field policy; when that fails, the budget is left untouched and
/// the whole operation is to abort. Then the limiter admits the rows.
pub fn plan_batch(
    limiter: &mut RowLimiter,
    format: Formats,
    fields: &Vec<FieldInfo>,
    num_rows: usize,
) -> (r: Result<BatchPlan, NestedFieldsError>)
    ensures
        match format {
            Formats::Csv(p) | Formats::CsvNoHeader(p) => match projection(fields@, p) {
                Ok(cols) => r is Ok && r->Ok_0.columns is Some && r->Ok_0.columns->Some_0@
                    == cols,
                Err(names) => r is Err && string_views(r->Err_0.fields@) == names,
            },
            _ => r is Ok && r->Ok_0.columns is None,
        },
        r is Ok ==> r->Ok_0.rows == admitted(old(limiter).left, num_rows) && final(limiter).left
            == remaining(old(limiter).left, num_rows) && r->Ok_0.forward == (r->Ok_0.rows > 0),
        r is Err ==> *final(limiter) == *old(limiter),
{
    let columns = match format.nested_policy() {
        Some(policy) => match nested_fields_to_json(fields, policy) {
            Ok(cols) => Some(cols),
            Err(e) => {
                return Err(e);
            },
        },
        None => None,
    };
    let rows = limiter.take_from(num_rows);
    Ok(BatchPlan { columns, rows, forward: rows > 0 })
}

} // verus!
