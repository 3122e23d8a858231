use pqrs::formats::{Formats, HeadCommandArgs, NestedFieldFormat};

fn args(csv: bool, no_header: bool, json: bool) -> HeadCommandArgs {
    HeadCommandArgs {
        csv,
        csv_no_header: no_header,
        json,
        records: 5,
        nested_fields: NestedFieldFormat::Omit,
        file: "data.parquet".to_string(),
    }
}

#[test]
fn format_names() {
    assert_eq!(Formats::Default.to_string(), "Default");
    assert_eq!(Formats::Json.to_string(), "Json");
    assert_eq!(Formats::Csv(NestedFieldFormat::Omit).to_string(), "Csv(Omit)");
    assert_eq!(
        Formats::CsvNoHeader(NestedFieldFormat::Error).to_string(),
        "CsvNoHeader(Error)"
    );
    assert_eq!(NestedFieldFormat::Json.to_string(), "Json");
}

#[test]
fn head_format_choice() {
    assert_eq!(args(false, false, false).output_format(), Formats::Default);
    assert_eq!(args(false, false, true).output_format(), Formats::Json);
    assert_eq!(args(true, false, false).output_format(), Formats::Csv(NestedFieldFormat::Omit));
    assert_eq!(
        args(true, true, false).output_format(),
        Formats::CsvNoHeader(NestedFieldFormat::Omit)
    );
}

#[test]
fn dispatch_properties() {
    let csv = Formats::Csv(NestedFieldFormat::Json);
    assert!(csv.has_header());
    assert_eq!(csv.nested_policy(), Some(NestedFieldFormat::Json));
    assert!(!Formats::CsvNoHeader(NestedFieldFormat::Omit).has_header());
    assert_eq!(Formats::Json.nested_policy(), None);
    assert!(Formats::Default.is_row_wise());
    assert!(!Formats::Json.is_row_wise());
}
