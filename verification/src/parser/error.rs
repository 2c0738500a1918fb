//! What can be wrong with a subscription entry.
use crate::ir::node::{CanonicalNode, NodeView};
use crate::text;
use vstd::prelude::*;
use vstd::string::*;

verus! {

/// Why an entry gives no node. `T` holds texts from the input, `F` names of
/// fields.
#[derive(Clone, Debug, PartialEq, Eq)]
pub enum ParseError<T = String, F = &'static str> {
    UnsupportedFormat(T),
    InvalidUri(T),
    Base64Decode(T),
    Json(T),
    MissingField(F),
    InvalidUuid(T),
    InvalidEndpoint(T),
    InvalidValue { field: F, value: T },
}

/// The model of an error.
pub type ErrorView = ParseError<Seq<char>, Seq<char>>;

impl View for ParseError {
    type V = ParseError<Seq<char>, Seq<char>>;

    open spec fn view(&self) -> ParseError<Seq<char>, Seq<char>> {
        match *self {
            ParseError::UnsupportedFormat(s) => ParseError::UnsupportedFormat(s@),
            ParseError::InvalidUri(s) => ParseError::InvalidUri(s@),
            ParseError::Base64Decode(s) => ParseError::Base64Decode(s@),
            ParseError::Json(s) => ParseError::Json(s@),
            ParseError::MissingField(f) => ParseError::MissingField(f@),
            ParseError::InvalidUuid(s) => ParseError::InvalidUuid(s@),
            ParseError::InvalidEndpoint(s) => ParseError::InvalidEndpoint(s@),
            ParseError::InvalidValue { field, value } => ParseError::InvalidValue {
                field: field@,
                value: value@,
            },
        }
    }
}

/// The message of an error.
pub open spec fn error_text(e: ErrorView) -> Seq<char> {
    match e {
        ParseError::UnsupportedFormat(s) => "unsupported format or scheme: "@ + s,
        ParseError::InvalidUri(s) => "malformed URI: "@ + s,
        ParseError::Base64Decode(s) => "Base64 decoding failed: "@ + s,
        ParseError::Json(s) => "JSON deserialization failed: "@ + s,
        ParseError::MissingField(f) => "missing mandatory field: "@ + f,
        ParseError::InvalidUuid(s) => "invalid UUID: "@ + s,
        ParseError::InvalidEndpoint(s) => "invalid endpoint: "@ + s,
        ParseError::InvalidValue { field, value } => "invalid value for "@ + field + ": "@ + value,
    }
}

impl ParseError {
    /// The message for a user.
    pub fn message(&self) -> (r: String)
        ensures
            r@ == error_text(self@),
    {
        let (head, tail): (&str, &str) = match self {
            ParseError::UnsupportedFormat(s) => ("unsupported format or scheme: ", s.as_str()),
            ParseError::InvalidUri(s) => ("malformed URI: ", s.as_str()),
            ParseError::Base64Decode(s) => ("Base64 decoding failed: ", s.as_str()),
            ParseError::Json(s) => ("JSON deserialization failed: ", s.as_str()),
            ParseError::MissingField(f) => ("missing mandatory field: ", f),
            ParseError::InvalidUuid(s) => ("invalid UUID: ", s.as_str()),
            ParseError::InvalidEndpoint(s) => ("invalid endpoint: ", s.as_str()),
            ParseError::InvalidValue { field, value } => {
                let mut r = "invalid value for ".to_owned();
                r.append(field);
                r.append(": ");
                r.append(value.as_str());
                return r;
            },
        };
        let mut r = head.to_owned();
        r.append(tail);
        r
    }
}

/// An entry that gave no node: its number among the entries, its line, a
/// snippet without secrets, and the reason.
#[derive(Clone, Debug, PartialEq, Eq)]
pub struct ParseFailure {
    pub entry_index: usize,
    pub line_number: usize,
    pub raw_snippet: String,
    pub reason: ParseError,
}

/// The model of a failure.
pub struct FailureView {
    pub entry_index: nat,
    pub line_number: nat,
    pub raw_snippet: Seq<char>,
    pub reason: ErrorView,
}

impl View for ParseFailure {
    type V = FailureView;

    open spec fn view(&self) -> FailureView {
        FailureView {
            entry_index: self.entry_index as nat,
            line_number: self.line_number as nat,
            raw_snippet: self.raw_snippet@,
            reason: self.reason@,
        }
    }
}

/// What an ingestion gave.
#[derive(Debug)]
pub struct IngestionReport {
    pub total_entries_scanned: usize,
    pub successful_nodes: Vec<CanonicalNode>,
    pub duplicates_omitted: usize,
    pub failed_entries: Vec<ParseFailure>,
}

/// The model of a report.
pub struct ReportView {
    pub scanned: nat,
    pub nodes: Seq<NodeView>,
    pub duplicates: nat,
    pub failures: Seq<FailureView>,
}

impl View for IngestionReport {
    type V = ReportView;

    open spec fn view(&self) -> ReportView {
        ReportView {
            scanned: self.total_entries_scanned as nat,
            nodes: self.successful_nodes@.map_values(|n: CanonicalNode| n@),
            duplicates: self.duplicates_omitted as nat,
            failures: self.failed_entries@.map_values(|f: ParseFailure| f@),
        }
    }
}

/// A report of nothing.
pub open spec fn empty_report() -> ReportView {
    ReportView { scanned: 0, nodes: Seq::empty(), duplicates: 0, failures: Seq::empty() }
}

impl Default for IngestionReport {
    fn default() -> (r: IngestionReport)
        ensures
            r@ == empty_report(),
    {
        let r = IngestionReport {
            total_entries_scanned: 0,
            successful_nodes: Vec::new(),
            duplicates_omitted: 0,
            failed_entries: Vec::new(),
        };
        assert(r@.nodes =~= Seq::empty());
        assert(r@.failures =~= Seq::empty());
        r
    }
}

/// The outcome of reading one entry, as its model.
pub open spec fn entry_result(r: Result<CanonicalNode, ParseError>) -> Result<NodeView, ErrorView> {
    match r {
        Ok(n) => Ok(n@),
        Err(e) => Err(e@),
    }
}

} // verus!
