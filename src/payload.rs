//! Payloads that routes receive as JSON.

use vstd::prelude::*;

verus! {

/// A named color and its value.
#[derive(Clone, Debug, PartialEq, Eq)]
pub struct Color {
    pub color: String,
    pub value: String,
}

} // verus!
