//! The error taxonomy: unreadable inputs, malformed documents, and empty
//! directory scans.

use vstd::prelude::*;
use vstd::string::StringExecFns;

verus! {

/// Why an input could not be turned into a report.
#[derive(Debug, Clone)]
pub enum ParseError {
    /// The named input could not be read at all.
    IoError { path: String, detail: String },
    /// The text is not well formed or does not fit the report shape.
    MalformedXml { detail: String, path: Option<String> },
    /// A directory scan found no file with a recognized extension.
    EmptyCollection,
}

impl ParseError {
    /// A readable, single-line description of the error.
    pub fn message(&self) -> (r: String)
        ensures
            match self {
                ParseError::IoError { path, detail } => r@ == "failed to read "@ + path@ + ": "@
                    + detail@,
                ParseError::MalformedXml { detail, path } => match path {
                    Some(p) => r@ == "failed to parse "@ + p@ + ": "@ + detail@,
                    None => r@ == "failed to parse: "@ + detail@,
                },
                ParseError::EmptyCollection => r@ == "no recognized report files found"@,
            },
    {
        match self {
            ParseError::IoError { path, detail } => {
                let mut s = String::from_str("failed to read ");
                s.append(path.as_str());
                s.append(": ");
                s.append(detail.as_str());
                s
            },
            ParseError::MalformedXml { detail, path } => {
                match path {
                    Some(p) => {
                        let mut s = String::from_str("failed to parse ");
                        s.append(p.as_str());
                        s.append(": ");
                        s.append(detail.as_str());
                        s
                    },
                    None => {
                        let mut s = String::from_str("failed to parse: ");
                        s.append(detail.as_str());
                        s
                    },
                }
            },
            ParseError::EmptyCollection => String::from_str("no recognized report files found"),
        }
    }
}

} // verus!
