//! The CSV stream layer.
//!
//! The linter's input is a byte stream in CSV syntax, with a configurable
//! field delimiter and escape byte. This module turns the whole stream into
//! plain values once: the header row, then every data row either as its cell
//! strings or as a parse-failure description. The parse itself is the `csv`
//! crate's; what it returns is a function of the bytes and the two
//! configuration bytes alone, named [`csv_parse_of`].

use vstd::prelude::*;

verus! {

/// One data row as the CSV layer hands it over: its cells, or the
/// description of why the row could not be parsed.
pub enum ParsedRow {
    Cells(Vec<String>),
    Malformed(String),
}

/// A whole parsed input: fatal failure reading the header, or the header row
/// plus every data row in order.
pub enum ParsedCsv {
    Fatal(String),
    Parsed { headers: Vec<String>, rows: Vec<ParsedRow> },
}

/// The model of one parsed data row.
#[verifier::ext_equal]
pub enum RowModel {
    Cells(Seq<Seq<char>>),
    Malformed(Seq<char>),
}

/// The model of a whole parsed input.
#[verifier::ext_equal]
pub enum CsvModel {
    Fatal(Seq<char>),
    Parsed { headers: Seq<Seq<char>>, rows: Seq<RowModel> },
}

impl View for ParsedRow {
    type V = RowModel;

    open spec fn view(&self) -> RowModel {
        match self {
            ParsedRow::Cells(cells) => RowModel::Cells(cells.deep_view()),
            ParsedRow::Malformed(message) => RowModel::Malformed(message@),
        }
    }
}

impl DeepView for ParsedRow {
    type V = RowModel;

    open spec fn deep_view(&self) -> RowModel {
        self.view()
    }
}

impl View for ParsedCsv {
    type V = CsvModel;

    open spec fn view(&self) -> CsvModel {
        match self {
            ParsedCsv::Fatal(message) => CsvModel::Fatal(message@),
            ParsedCsv::Parsed { headers, rows } => CsvModel::Parsed {
                headers: headers.deep_view(),
                rows: rows.deep_view(),
            },
        }
    }
}

/// What parsing a CSV byte stream with the given field delimiter and escape
/// byte yields: a function of these three arguments alone.
pub uninterp spec fn csv_parse_of(data: Seq<u8>, delimiter: u8, escape: Option<u8>) -> CsvModel;

/// Relies on the `csv` crate (`ReaderBuilder`, `Reader::headers`,
/// `Reader::into_records`): parsing is deterministic in the bytes, the
/// delimiter and the escape byte; and a stream that ends before any data
/// yields an empty header row and no records.
#[verifier::external_body]
pub fn parse_csv(data: &[u8], delimiter: u8, escape: Option<u8>) -> (r: ParsedCsv)
    ensures
        r@ == csv_parse_of(data@, delimiter, escape),
        data@.len() == 0 ==> r@ == (CsvModel::Parsed {
            headers: Seq::<Seq<char>>::empty(),
            rows: Seq::<RowModel>::empty(),
        }),
{
    let mut builder = csv::ReaderBuilder::new();
    builder.delimiter(delimiter).escape(escape);
    let mut reader = builder.from_reader(data);
    let headers: Vec<String> = match reader.headers() {
        Ok(h) => h.iter().map(str::to_string).collect(),
        Err(e) => return ParsedCsv::Fatal(e.to_string()),
    };
    let rows: Vec<ParsedRow> = reader
        .into_records()
        .map(|row| match row {
            Ok(cells) => ParsedRow::Cells(cells.iter().map(str::to_string).collect()),
            Err(e) => ParsedRow::Malformed(e.to_string()),
        })
        .collect();
    ParsedCsv::Parsed { headers, rows }
}

} // verus!
