//! Output formats and the policy for nested fields.

use vstd::prelude::*;
use vstd::string::*;

verus! {

/// How to handle nested field types in formats that do not support them, like CSV.
#[derive(Clone, Copy, Debug, PartialEq, Eq)]
pub enum NestedFieldFormat {
    /// Report every nested field and abort.
    Error,
    /// Omit columns with nested field types.
    Omit,
    /// Encode nested fields as JSON.
    Json,
}

/// Output formats supported.
#[derive(Clone, Copy, Debug, PartialEq, Eq)]
pub enum Formats {
    Default,
    Csv(NestedFieldFormat),
    CsvNoHeader(NestedFieldFormat),
    Json,
}

pub open spec fn nested_format_name(f: NestedFieldFormat) -> Seq<char> {
    match f {
        NestedFieldFormat::Error => "Error"@,
        NestedFieldFormat::Omit => "Omit"@,
        NestedFieldFormat::Json => "Json"@,
    }
}

pub open spec fn format_name(f: Formats) -> Seq<char> {
    match f {
        Formats::Default => "Default"@,
        Formats::Csv(n) => "Csv("@ + nested_format_name(n) + ")"@,
        Formats::CsvNoHeader(n) => "CsvNoHeader("@ + nested_format_name(n) + ")"@,
        Formats::Json => "Json"@,
    }
}

impl NestedFieldFormat {
    /// The policy's name, as in `Error`.
    pub fn to_string(&self) -> (r: String)
        ensures
            r@ == nested_format_name(*self),
    {
        match self {
            NestedFieldFormat::Error => String::from_str("Error"),
            NestedFieldFormat::Omit => String::from_str("Omit"),
            NestedFieldFormat::Json => String::from_str("Json"),
        }
    }
}

/// `prefix`, then the policy's name, then `)`.
fn wrapped_name(prefix: &str, n: NestedFieldFormat) -> (r: String)
    ensures
        r@ == prefix@ + nested_format_name(n) + ")"@,
{
    let mut s = String::from_str(prefix);
    let name = n.to_string();
    s.append(name.as_str());
    s.append(")");
    s
}

impl Formats {
    /// The format's name, as in `Csv(Omit)`.
    pub fn to_string(&self) -> (r: String)
        ensures
            r@ == format_name(*self),
    {
        match self {
            Formats::Default => String::from_str("Default"),
            Formats::Csv(n) => wrapped_name("Csv(", *n),
            Formats::CsvNoHeader(n) => wrapped_name("CsvNoHeader(", *n),
            Formats::Json => String::from_str("Json"),
        }
    }

    /// True iff rows are decoded and rendered one at a time (the native row
    /// text); the other formats go batch by batch.
    pub fn is_row_wise(&self) -> (r: bool)
        ensures
            r == (*self == Formats::Default),
    {
        match self {
            Formats::Default => true,
            _ => false,
        }
    }

    /// The nested-field policy to apply to each batch before it is limited
    /// and encoded: only the tabular formats have one.
    pub fn nested_policy(&self) -> (r: Option<NestedFieldFormat>)
        ensures
            r == match *self {
                Formats::Csv(n) => Some(n),
                Formats::CsvNoHeader(n) => Some(n),
                _ => None::<NestedFieldFormat>,
            },
    {
        match self {
            Formats::Csv(n) => Some(*n),
            Formats::CsvNoHeader(n) => Some(*n),
            _ => None,
        }
    }

    /// True iff the output starts with a header row.
    pub fn has_header(&self) -> (r: bool)
        ensures
            r == (*self is Csv),
    {
        match self {
            Formats::Csv(_) => true,
            _ => false,
        }
    }
}

/// Options of the command that prints the first records of a file.
pub struct HeadCommandArgs {
    /// Use CSV format for printing.
    pub csv: bool,
    /// Use CSV format without a header for printing.
    pub csv_no_header: bool,
    /// Use JSON lines format for printing.
    pub json: bool,
    /// The number of records to show.
    pub records: usize,
    /// How to handle nested fields in CSV output.
    pub nested_fields: NestedFieldFormat,
    /// File to read.
    pub file: String,
}

pub open spec fn chosen_format(opts: HeadCommandArgs) -> Formats {
    if opts.json {
        Formats::Json
    } else if opts.csv_no_header {
        Formats::CsvNoHeader(opts.nested_fields)
    } else if opts.csv {
        Formats::Csv(opts.nested_fields)
    } else {
        Formats::Default
    }
}

impl HeadCommandArgs {
    /// The output format the options ask for: JSON lines wins over CSV
    /// without header, which wins over CSV; otherwise the native row text.
    pub fn output_format(&self) -> (r: Formats)
        ensures
            r == chosen_format(*self),
    {
        if self.json {
            Formats::Json
        } else if self.csv_no_header {
            Formats::CsvNoHeader(self.nested_fields)
        } else if self.csv {
            Formats::Csv(self.nested_fields)
        } else {
            Formats::Default
        }
    }
}

} // verus!
