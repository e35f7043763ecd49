//! The review queue of generated questions: which staged questions may be
//! approved, edited, improvised or rejected, and the answers when an
//! update finds nothing to change.
use vstd::prelude::*;
use crate::errors::{ApiError, CONFLICT, NOT_FOUND, api_error};
use crate::strings::{concat3, str_eq};

verus! {

/// A question waiting in (or leaving) the review queue.
#[derive(Debug)]
pub struct StagingItem {
    pub id: String,
    pub chapter_id: String,
    pub question_text: String,
    pub scoring_rubric_json: String,
    pub alternate_variants_json: String,
    pub status: String,
    pub created_at: String,
}

/// Body of `PUT /api/admin/questions/staging/{id}`.
#[derive(Debug)]
pub struct EditStagingRequest {
    pub question_text: String,
    pub scoring_rubric_json: String,
    pub alternate_variants_json: String,
}

/// Body of `POST /api/admin/questions/staging/{id}/improvise`.
#[derive(Debug)]
pub struct ImproviseRequest {
    pub admin_guidance: Option<String>,
}

/// The status of a question that is waiting for review.
pub open spec fn pending() -> Seq<char> {
    "pending_review"@
}

/// A staged question read from the queue; a missing chapter reads as empty.
pub fn staging_from_row(
    id: String,
    chapter_id: Option<String>,
    question_text: String,
    scoring_rubric_json: String,
    alternate_variants_json: String,
    status: String,
    created_at: String,
) -> (item: StagingItem)
    ensures
        item.id == id,
        item.chapter_id@ == match chapter_id {
            Some(c) => c@,
            None => Seq::<char>::empty(),
        },
        item.question_text == question_text,
        item.scoring_rubric_json == scoring_rubric_json,
        item.alternate_variants_json == alternate_variants_json,
        item.status == status,
        item.created_at == created_at,
{
    let chapter_id = match chapter_id {
        Some(c) => c,
        None => String::new(),
    };
    StagingItem {
        id,
        chapter_id,
        question_text,
        scoring_rubric_json,
        alternate_variants_json,
        status,
        created_at,
    }
}

/// `'{a}' {b} '{c}'`-shaped messages: `p + a + q + b + z`.
fn message5(p: &str, a: &str, q: &str, b: &str, z: &str) -> (r: String)
    ensures
        r@ == p@ + a@ + q@ + b@ + z@,
{
    let mut r = concat3(p, a, q);
    r.append(b);
    r.append(z);
    r
}

/// Only a question still waiting for review may be approved: any other
/// status is a 409 naming it.
pub fn check_approvable(id: &str, item: &StagingItem) -> (r: Result<(), ApiError>)
    ensures
        r is Ok <==> item.status@ == pending(),
        r matches Err(e) ==> e.status == CONFLICT && e.message@ == "Staging item '"@ + id@
            + "' is already '"@ + item.status@ + "'"@,
{
    if str_eq(item.status.as_str(), "pending_review") {
        Ok(())
    } else {
        Err(
            api_error(
                CONFLICT,
                message5("Staging item '", id, "' is already '", item.status.as_str(), "'"),
            ),
        )
    }
}

/// Only a question still waiting for review may be improvised: any other
/// status is a 409 naming it.
pub fn check_improvisable(id: &str, item: &StagingItem) -> (r: Result<(), ApiError>)
    ensures
        r is Ok <==> item.status@ == pending(),
        r matches Err(e) ==> e.status == CONFLICT && e.message@ == "Staging item '"@ + id@ + "' is '"@
            + item.status@ + "'; only pending_review items can be improvised"@,
{
    if str_eq(item.status.as_str(), "pending_review") {
        Ok(())
    } else {
        Err(
            api_error(
                CONFLICT,
                message5(
                    "Staging item '",
                    id,
                    "' is '",
                    item.status.as_str(),
                    "'; only pending_review items can be improvised",
                ),
            ),
        )
    }
}

/// An edit or rejection changes only a question waiting for review: when
/// no row was changed the question is missing or already reviewed (404).
pub fn require_pending_update(affected: u64, id: &str) -> (r: Result<(), ApiError>)
    ensures
        r is Ok <==> affected > 0,
        r matches Err(e) ==> e.status == NOT_FOUND && e.message@ == "Staging item '"@ + id@
            + "' not found or is not in pending_review state"@,
{
    if affected == 0 {
        Err(
            api_error(
                NOT_FOUND,
                concat3("Staging item '", id, "' not found or is not in pending_review state"),
            ),
        )
    } else {
        Ok(())
    }
}

/// An approval whose guarded update changed no row lost a race with a
/// concurrent review (409).
pub fn require_approval_update(affected: u64, id: &str) -> (r: Result<(), ApiError>)
    ensures
        r is Ok <==> affected > 0,
        r matches Err(e) ==> e.status == CONFLICT && e.message@ == "Staging item '"@ + id@
            + "' was concurrently processed; no action taken"@,
{
    if affected == 0 {
        Err(
            api_error(
                CONFLICT,
                concat3("Staging item '", id, "' was concurrently processed; no action taken"),
            ),
        )
    } else {
        Ok(())
    }
}

/// Deleting a question from the databank that removed nothing: 404.
pub fn require_databank_delete(affected: u64, id: &str) -> (r: Result<(), ApiError>)
    ensures
        r is Ok <==> affected > 0,
        r matches Err(e) ==> e.status == NOT_FOUND && e.message@ == "Databank item '"@ + id@
            + "' not found"@,
{
    if affected == 0 {
        Err(api_error(NOT_FOUND, concat3("Databank item '", id, "' not found")))
    } else {
        Ok(())
    }
}

/// The answer when no staged question has the id (404).
pub fn staging_not_found(id: &str) -> (e: ApiError)
    ensures
        e.status == NOT_FOUND,
        e.message@ == "Staging item '"@ + id@ + "' not found"@,
{
    api_error(NOT_FOUND, concat3("Staging item '", id, "' not found"))
}

} // verus!
