//! The failure cases of a conversion run. Every failure is fatal: there is
//! no partial output.

use vstd::prelude::*;
use crate::chars::string_from_chars;
use crate::numbers::{dec_nat, fmt_u64};

verus! {

/// The mathematical shape of a conversion failure.
pub enum ErrorModel {
    Schema { expected: nat, actual: nat },
    BadBool(Seq<char>),
    BadNumber(Seq<char>),
    Csv(Seq<char>),
}

/// A fatal conversion failure.
#[derive(Debug, Clone)]
pub enum ConvertError {
    /// A row's field count differs from the record kind's fixed arity.
    Schema { expected: usize, actual: usize },
    /// A boolean column held a token other than the accepted yes/no forms.
    BadBool(String),
    /// A mandatory numeric column held text that is not a decimal number.
    BadNumber(String),
    /// The row splitter rejected the input text.
    Csv(String),
}

impl View for ConvertError {
    type V = ErrorModel;

    open spec fn view(&self) -> ErrorModel {
        match self {
            ConvertError::Schema { expected, actual } => ErrorModel::Schema {
                expected: *expected as nat,
                actual: *actual as nat,
            },
            ConvertError::BadBool(t) => ErrorModel::BadBool(t@),
            ConvertError::BadNumber(t) => ErrorModel::BadNumber(t@),
            ConvertError::Csv(t) => ErrorModel::Csv(t@),
        }
    }
}

/// The human-readable description of a failure.
pub open spec fn message_of(e: ErrorModel) -> Seq<char> {
    match e {
        ErrorModel::Schema { expected, actual } => "expected "@ + dec_nat(expected)
            + " fields, found "@ + dec_nat(actual),
        ErrorModel::BadBool(t) => "value must be yes or no, found: "@ + t,
        ErrorModel::BadNumber(t) => "not a decimal number: "@ + t,
        ErrorModel::Csv(t) => "malformed input table: "@ + t,
    }
}

impl ConvertError {
    /// Renders the failure as a message naming the cause.
    pub fn message(&self) -> (r: String)
        ensures
            r@ == message_of(self@),
    {
        match self {
            ConvertError::Schema { expected, actual } => {
                let mut m = String::from_str("expected ");
                let ec = fmt_u64(*expected as u64);
                m.append(string_from_chars(&ec).as_str());
                m.append(" fields, found ");
                let ac = fmt_u64(*actual as u64);
                m.append(string_from_chars(&ac).as_str());
                m
            },
            ConvertError::BadBool(t) => {
                let mut m = String::from_str("value must be yes or no, found: ");
                m.append(t.as_str());
                m
            },
            ConvertError::BadNumber(t) => {
                let mut m = String::from_str("not a decimal number: ");
                m.append(t.as_str());
                m
            },
            ConvertError::Csv(t) => {
                let mut m = String::from_str("malformed input table: ");
                m.append(t.as_str());
                m
            },
        }
    }
}

} // verus!
