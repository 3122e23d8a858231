use pqrs::dispatch::plan_batch;
use pqrs::formats::{Formats, NestedFieldFormat};
use pqrs::limiter::RowLimiter;
use pqrs::projection::{ColumnAction, FieldInfo};

fn fields() -> Vec<FieldInfo> {
    vec![
        FieldInfo { name: "id".to_string(), nested: false },
        FieldInfo { name: "tags".to_string(), nested: true },
    ]
}

#[test]
fn csv_projects_then_limits() {
    let mut limiter = RowLimiter::new(Some(120));
    let format = Formats::Csv(NestedFieldFormat::Omit);
    let first = plan_batch(&mut limiter, format, &fields(), 64).ok().unwrap();
    assert_eq!(first.columns, Some(vec![ColumnAction::Keep(0)]));
    assert_eq!(first.rows, 64);
    let second = plan_batch(&mut limiter, format, &fields(), 64).ok().unwrap();
    assert_eq!(second.rows, 56);
    assert!(second.forward);
    assert!(limiter.is_spent());
}

#[test]
fn projection_failure_leaves_budget() {
    let mut limiter = RowLimiter::new(Some(10));
    let format = Formats::CsvNoHeader(NestedFieldFormat::Error);
    match plan_batch(&mut limiter, format, &fields(), 4) {
        Err(e) => assert_eq!(e.fields, vec!["tags".to_string()]),
        Ok(_) => panic!("nested field must be refused"),
    }
    assert_eq!(limiter.left, Some(10));
}

#[test]
fn json_batches_are_not_projected() {
    let mut limiter = RowLimiter::new(None);
    let plan = plan_batch(&mut limiter, Formats::Json, &fields(), 8192).ok().unwrap();
    assert!(plan.columns.is_none());
    assert_eq!(plan.rows, 8192);
}

#[test]
fn empty_batch_is_not_forwarded() {
    let mut limiter = RowLimiter::new(Some(3));
    let plan = plan_batch(&mut limiter, Formats::Json, &fields(), 0).ok().unwrap();
    assert_eq!(plan.rows, 0);
    assert!(!plan.forward);
    assert_eq!(limiter.left, Some(3));
    let mut spent = RowLimiter::new(Some(0));
    let plan = plan_batch(&mut spent, Formats::Csv(NestedFieldFormat::Json), &fields(), 5).ok().unwrap();
    assert!(!plan.forward);
}
