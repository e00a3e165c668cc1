//! Extracts stock-ticker mentions (`$` followed by uppercase ASCII letters)
//! from free-form text and renders them as a fixed set of prefixed,
//! length-limited lists, each under a constant header.

use vstd::prelude::*;

pub mod extract;
pub mod format;

verus! {

use crate::extract::extract_tickers;
use crate::extract::extracted_tickers;
use crate::format::assembled_document;
use crate::format::format_multiple_variants;

/// The full pipeline on a text: extract the tickers, then assemble the
/// three-variant document.
pub open spec fn document_of(input: Seq<char>) -> Seq<char> {
    assembled_document(extracted_tickers(input))
}

/// Extract the tickers from a text and assemble the three-variant document.
pub fn build_document(input: &str) -> (r: String)
    ensures
        r@ == document_of(input@),
{
    let tickers = extract_tickers(input);
    format_multiple_variants(&tickers)
}

/// Determinism of the pipeline: any two outputs that meet the pipeline's
/// contract on the same input are identical.
pub proof fn lemma_pipeline_deterministic(input: Seq<char>, out1: Seq<char>, out2: Seq<char>)
    requires
        out1 == document_of(input),
        out2 == document_of(input),
    ensures
        out1 == out2,
{
}

} // verus!
