//! Checks of a map-and-analyse request before its document goes to the
//! model.
use vstd::prelude::*;
use crate::errors::{ApiError, BAD_REQUEST, NOT_FOUND, UNPROCESSABLE_ENTITY, api_error};
use crate::strings::{concat3, decimal, decimal_string, words};
use crate::text::word_count;

verus! {

/// The fewest words a document must hold to be analysed.
pub const MIN_ANALYSIS_WORDS: usize = 50;

/// A map request needs a chapter id and a non-empty file (400 otherwise,
/// the chapter id checked first).
pub fn check_map_request(chapter_id: &str, file_len: usize) -> (r: Result<(), ApiError>)
    ensures
        chapter_id@.len() == 0 ==> (r matches Err(e) && e.status == BAD_REQUEST && e.message@
            == "chapter_id field is required"@),
        chapter_id@.len() > 0 && file_len == 0 ==> (r matches Err(e) && e.status == BAD_REQUEST
            && e.message@ == "file field is missing or empty"@),
        chapter_id@.len() > 0 && file_len > 0 ==> r is Ok,
{
    if chapter_id.is_empty() {
        return Err(api_error(BAD_REQUEST, String::from_str("chapter_id field is required")));
    }
    if file_len == 0 {
        return Err(api_error(BAD_REQUEST, String::from_str("file field is missing or empty")));
    }
    Ok(())
}

/// The number of words of a document to analyse; fewer than
/// [`MIN_ANALYSIS_WORDS`] is refused with 422.
pub fn check_map_words(text: &str) -> (r: Result<usize, ApiError>)
    ensures
        words(text@).len() >= MIN_ANALYSIS_WORDS ==> r == Ok::<usize, ApiError>(
            words(text@).len() as usize,
        ),
        words(text@).len() < MIN_ANALYSIS_WORDS ==> (r matches Err(e) && e.status
            == UNPROCESSABLE_ENTITY && e.message@ == "Document contains only "@ + decimal(
            words(text@).len(),
        ) + " words \u{2014} minimum 50 required for analysis"@),
{
    let n = word_count(text);
    if n < MIN_ANALYSIS_WORDS {
        let count = decimal_string(n as u64);
        Err(
            api_error(
                UNPROCESSABLE_ENTITY,
                concat3(
                    "Document contains only ",
                    count.as_str(),
                    " words \u{2014} minimum 50 required for analysis",
                ),
            ),
        )
    } else {
        Ok(n)
    }
}

/// The answer when the chapter of a map request does not exist (404).
pub fn chapter_not_found(chapter_id: &str) -> (e: ApiError)
    ensures
        e.status == NOT_FOUND,
        e.message@ == "Chapter '"@ + chapter_id@ + "' not found in the database"@,
{
    api_error(NOT_FOUND, concat3("Chapter '", chapter_id, "' not found in the database"))
}

} // verus!
