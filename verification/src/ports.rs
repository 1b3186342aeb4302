//! Shared provider-facing types: the error taxonomy every backend failure is
//! normalized into, and the address search query.

use crate::text::blank;
use crate::text::is_blank;
use vstd::prelude::*;
use vstd::string::StringExecFns;

verus! {

/// Errors that can occur while talking to provider backends.
#[derive(Debug, Clone)]
pub enum PortError {
    /// Network layer failed; carries the transport's description.
    Network(String),
    /// Failed to parse a date from the provider response; carries the text
    /// that would not parse.
    Parse(String),
    /// Requested address could not be found.
    AddressNotFound,
    /// The city has no registered plugin.
    UnsupportedCity,
    /// Address identifier is invalid for the provider.
    InvalidAddressId,
    /// Provider returned an unknown waste fraction.
    UnknownFraction(String),
    /// Internal provider error.
    Internal(String),
}

impl PortError {
    /// The rendered description of this error.
    pub open spec fn message_spec(&self) -> Seq<char> {
        match self {
            PortError::Network(s) => "Network error: "@ + s@,
            PortError::Parse(s) => "Parse error: "@ + s@,
            PortError::AddressNotFound => "Address not found"@,
            PortError::UnsupportedCity => "Unsupported city"@,
            PortError::InvalidAddressId => "Invalid address id"@,
            PortError::UnknownFraction(s) => "Unknown fraction: "@ + s@,
            PortError::Internal(s) => "Internal error: "@ + s@,
        }
    }

    /// Human-readable description, one line per error kind.
    pub fn message(&self) -> (r: String)
        ensures
            r@ == self.message_spec(),
    {
        match self {
            PortError::Network(s) => {
                let mut out = String::new();
                out.append("Network error: ");
                out.append(s.as_str());
                out
            },
            PortError::Parse(s) => {
                let mut out = String::new();
                out.append("Parse error: ");
                out.append(s.as_str());
                out
            },
            PortError::AddressNotFound => {
                let mut out = String::new();
                out.append("Address not found");
                out
            },
            PortError::UnsupportedCity => {
                let mut out = String::new();
                out.append("Unsupported city");
                out
            },
            PortError::InvalidAddressId => {
                let mut out = String::new();
                out.append("Invalid address id");
                out
            },
            PortError::UnknownFraction(s) => {
                let mut out = String::new();
                out.append("Unknown fraction: ");
                out.append(s.as_str());
                out
            },
            PortError::Internal(s) => {
                let mut out = String::new();
                out.append("Internal error: ");
                out.append(s.as_str());
                out
            },
        }
    }
}

/// Query parameters for searching addresses.
#[derive(Debug, Clone)]
pub struct AddressSearch {
    /// Street name to look up.
    pub street: String,
    /// Optional house number filter.
    pub house_number: Option<String>,
}

impl AddressSearch {
    /// Whether the query street trims to nothing, so that a search must
    /// short-circuit to an empty result.
    pub open spec fn is_blank_query(&self) -> bool {
        blank(self.street@)
    }

    /// Construct a new search query.
    pub fn new(street: String, house_number: Option<String>) -> (r: AddressSearch)
        ensures
            r.street == street,
            r.house_number == house_number,
    {
        AddressSearch { street, house_number }
    }

    /// Check if the search query is empty: nothing but white space in the
    /// street field.
    pub fn is_empty(&self) -> (r: bool)
        ensures
            r == self.is_blank_query(),
    {
        is_blank(self.street.as_str())
    }
}

} // verus!
