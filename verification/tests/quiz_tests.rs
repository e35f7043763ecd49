use capadvisors_backend::quiz::{
    check_approvable, check_improvisable, require_approval_update, require_databank_delete,
    require_pending_update, staging_from_row, staging_not_found, StagingItem,
};
use capadvisors_backend::quiz_submit::{
    chapter_activity, check_answers, evaluate_answer, evaluate_submission, scorecard, Answer,
    AnswerOutcome, EvaluatedAnswer, QuizSubmitRequest, StoredQuestion,
};

fn item(status: &str) -> StagingItem {
    staging_from_row(
        "q1".into(),
        None,
        "text".into(),
        "{}".into(),
        "[]".into(),
        status.into(),
        "now".into(),
    )
}

#[test]
fn only_pending_items_are_approved_or_improvised() {
    assert!(check_approvable("q1", &item("pending_review")).is_ok());
    let e = check_approvable("q1", &item("approved")).unwrap_err();
    assert_eq!((e.status, e.message.as_str()), (409, "Staging item 'q1' is already 'approved'"));
    assert!(check_improvisable("q1", &item("pending_review")).is_ok());
    let e = check_improvisable("q1", &item("rejected")).unwrap_err();
    assert_eq!(
        e.message,
        "Staging item 'q1' is 'rejected'; only pending_review items can be improvised"
    );
    assert_eq!(item("x").chapter_id, "");
}

#[test]
fn updates_that_change_nothing() {
    assert!(require_pending_update(1, "q").is_ok());
    let e = require_pending_update(0, "q").unwrap_err();
    assert_eq!((e.status, e.message.as_str()), (404, "Staging item 'q' not found or is not in pending_review state"));
    let e = require_approval_update(0, "q").unwrap_err();
    assert_eq!((e.status, e.message.as_str()), (409, "Staging item 'q' was concurrently processed; no action taken"));
    let e = require_databank_delete(0, "d").unwrap_err();
    assert_eq!((e.status, e.message.as_str()), (404, "Databank item 'd' not found"));
    assert!(require_databank_delete(3, "d").is_ok());
    let e = staging_not_found("z");
    assert_eq!((e.status, e.message.as_str()), (404, "Staging item 'z' not found"));
}

#[test]
fn empty_submissions_are_refused() {
    let e = check_answers(&QuizSubmitRequest { quiz_id: None, answers: vec![] }).unwrap_err();
    assert_eq!((e.status, e.message.as_str()), (400, "answers array cannot be empty"));
    let req = QuizSubmitRequest {
        quiz_id: Some("q".into()),
        answers: vec![Answer { question_id: "x".into(), selected_option: "A".into() }],
    };
    assert!(check_answers(&req).is_ok());
}

#[test]
fn answers_are_graded_after_trimming() {
    assert!(matches!(evaluate_answer(" B ", Some("B")), AnswerOutcome::Correct));
    assert!(matches!(evaluate_answer("A", Some("B")), AnswerOutcome::Wrong));
    assert!(matches!(evaluate_answer("A", Some("  ")), AnswerOutcome::Skipped));
    assert!(matches!(evaluate_answer("A", None), AnswerOutcome::Skipped));
    assert!(matches!(evaluate_answer("b", Some("B")), AnswerOutcome::Wrong));
}

fn ev(ch: &str, correct: bool, ai: bool) -> EvaluatedAnswer {
    EvaluatedAnswer { question_id: "q".into(), chapter_id: ch.into(), correct, ai_flagged: ai }
}

#[test]
fn flagged_answers_lose_their_mark_and_cost_five() {
    let v = vec![ev("c1", true, false), ev("c1", true, true), ev("c2", false, true), ev("c2", true, false)];
    let s = scorecard(&v);
    assert_eq!(s.questions_evaluated, 4);
    assert_eq!(s.correct_count, 2);
    assert_eq!(s.flagged_count, 2);
    assert!(s.is_ai_flagged);
    assert_eq!(s.penalty_points, 10);
    assert_eq!(s.final_scorecard_total, -8);
}

#[test]
fn clean_submission_has_no_penalty() {
    let s = scorecard(&vec![ev("c", true, false), ev("c", false, false)]);
    assert!(!s.is_ai_flagged);
    assert_eq!((s.correct_count, s.penalty_points, s.final_scorecard_total), (1, 0, 1));
}

#[test]
fn chapter_activity_accounts_for_every_answer() {
    let v = vec![ev("c1", true, false), ev("c2", true, true), ev("c1", false, false), ev("", true, false)];
    let acts = chapter_activity(&v);
    let got: Vec<(String, i64, i64)> =
        acts.iter().map(|a| (a.chapter_id.clone(), a.correct, a.total)).collect();
    assert_eq!(
        got,
        vec![("c1".to_string(), 1, 2), ("c2".to_string(), 0, 1), ("".to_string(), 1, 1)]
    );
    let total: i64 = acts.iter().map(|a| a.total).sum();
    let correct: i64 = acts.iter().map(|a| a.correct).sum();
    assert_eq!(total as usize, v.len());
    assert_eq!(correct, scorecard(&v).correct_count);
}

fn answer(q: &str, sel: &str) -> Answer {
    Answer { question_id: q.into(), selected_option: sel.into() }
}

fn stored(correct: &str, ch: &str) -> Option<StoredQuestion> {
    Some(StoredQuestion { correct_answer: correct.into(), chapter_id: ch.into() })
}

#[test]
fn submission_grading_skips_unknown_and_blank_questions() {
    let answers = vec![
        answer("q1", " B"),
        answer("q2", "A"),
        answer("q3", "A"),
        answer("q4", "C"),
        answer("q5", "D"),
    ];
    let facts = vec![stored("B", "c1"), None, stored("  ", "c2"), stored("D", ""), stored("D ", "c3")];
    let (evaluated, skipped) = evaluate_submission(&answers, &facts);
    assert_eq!(skipped, 2);
    let got: Vec<(String, String, bool, bool)> = evaluated
        .iter()
        .map(|e| (e.question_id.clone(), e.chapter_id.clone(), e.correct, e.ai_flagged))
        .collect();
    assert_eq!(
        got,
        vec![
            ("q1".to_string(), "c1".to_string(), true, false),
            ("q4".to_string(), "".to_string(), false, false),
            ("q5".to_string(), "c3".to_string(), true, false),
        ]
    );
    assert_eq!(evaluated.len() + skipped, answers.len());
    let (none, all) = evaluate_submission(&vec![answer("x", "A")], &vec![None]);
    assert!(none.is_empty());
    assert_eq!(all, 1);
}
