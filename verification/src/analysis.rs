//! The structure of a map-analysis result that can be checked without the
//! rubric's fractional marks.
use vstd::prelude::*;
use crate::strings::{concat2, decimal, decimal_string};

verus! {

/// One diagnostic permutation of an exam question.
#[derive(Debug)]
pub struct DiagnosticVariant {
    /// 1, 2, or 3.
    pub variant_number: i64,
    /// `NUMERICAL_SHIFT` | `STRATEGIC_REVERSE` | `EDGE_CASE_LIMIT`
    pub variant_type: String,
    pub title: String,
    pub question: String,
    /// What differs from the main question.
    pub key_difference: String,
}

/// The most diagnostic variants a result may carry.
pub const MAX_VARIANTS: usize = 3;

/// A result may carry at most [`MAX_VARIANTS`] diagnostic variants; more is
/// refused with a message naming the count.
pub fn check_variant_count(count: usize) -> (r: Result<(), String>)
    ensures
        r is Ok <==> count <= MAX_VARIANTS,
        r matches Err(m) ==> m@ == "Expected at most 3 diagnostic variants, Gemini returned "@
            + decimal(count as nat),
{
    if count > MAX_VARIANTS {
        let n = decimal_string(count as u64);
        Err(concat2("Expected at most 3 diagnostic variants, Gemini returned ", n.as_str()))
    } else {
        Ok(())
    }
}

} // verus!
