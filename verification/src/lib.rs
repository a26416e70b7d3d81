//! A typed client core for a Prometheus-style HTTP query API: label-matcher
//! selectors, composite vector expressions, duration validation, query
//! parameter assembly, and a layered decoder that turns the JSON response
//! envelope into strongly-typed results.

pub mod duration;
pub mod error;
pub mod expression;
pub mod json;
pub mod query;
pub mod response;
pub mod selector;
pub mod text;

use vstd::prelude::*;

verus! {

/// True for the characters permitted in a label identifier.
pub open spec fn is_label_char(c: char) -> bool {
    ('a' <= c && c <= 'z') || ('A' <= c && c <= 'Z') || ('0' <= c && c <= '9') || c == '_'
}

/// True for ASCII decimal digits.
pub open spec fn is_digit_char(c: char) -> bool {
    '0' <= c && c <= '9'
}

} // verus!
