//! Grading of a quiz submission: which answers are evaluated, which are
//! correct, the AI-misuse penalty, the scorecard, and the per-chapter
//! activity that the submission records.
use vstd::prelude::*;
use crate::errors::{ApiError, BAD_REQUEST, api_error};
use crate::strings::{is_blank, str_eq, trim, trimmed};

verus! {

/// One answer of a submission.
#[derive(Debug)]
pub struct Answer {
    pub question_id: String,
    pub selected_option: String,
}

/// Body of `POST /api/quizzes/submit`.
#[derive(Debug)]
pub struct QuizSubmitRequest {
    pub quiz_id: Option<String>,
    pub answers: Vec<Answer>,
}

/// Marks taken off the scorecard for each answer flagged as AI-generated.
pub const AI_PENALTY_MARKS: i64 = 5;

/// Refuses a submission without answers (400).
pub fn check_answers(req: &QuizSubmitRequest) -> (r: Result<(), ApiError>)
    ensures
        r is Ok <==> req.answers@.len() > 0,
        r matches Err(e) ==> e.status == BAD_REQUEST && e.message@ == "answers array cannot be empty"@,
{
    if req.answers.len() == 0 {
        Err(api_error(BAD_REQUEST, String::from_str("answers array cannot be empty")))
    } else {
        Ok(())
    }
}

/// How one answer is graded.
#[derive(Debug)]
pub enum AnswerOutcome {
    /// The question is unknown or has no stored correct answer.
    Skipped,
    Correct,
    Wrong,
}

/// The grade of an answer `selected` to a question whose stored correct
/// answer is `correct` (`None` when the question does not exist): skipped
/// when the question is missing or its answer is blank, else correct
/// exactly when both agree once trimmed.
pub open spec fn grade(selected: Seq<char>, correct: Option<Seq<char>>) -> AnswerOutcome {
    match correct {
        None => AnswerOutcome::Skipped,
        Some(c) => if trimmed(c).len() == 0 {
            AnswerOutcome::Skipped
        } else if trimmed(selected) == trimmed(c) {
            AnswerOutcome::Correct
        } else {
            AnswerOutcome::Wrong
        },
    }
}

/// How an answer is graded, in terms of the two texts: it is correct
/// exactly when the question has a non-blank stored answer and the trimmed
/// answer equals the trimmed stored answer; it is skipped exactly when the
/// question is missing or its stored answer is blank; otherwise it is
/// wrong. In particular a blank answer (or any proper prefix of the stored
/// answer) is never correct against a non-blank stored answer.
pub proof fn lemma_grading(selected: Seq<char>, correct: Option<Seq<char>>)
    ensures
        (grade(selected, correct) is Correct) <==> (correct is Some && trimmed(correct->0).len() > 0
            && trimmed(selected) == trimmed(correct->0)),
        (grade(selected, correct) is Skipped) <==> (correct is None || trimmed(correct->0).len()
            == 0),
        (grade(selected, correct) is Wrong) <==> (correct is Some && trimmed(correct->0).len() > 0
            && trimmed(selected) != trimmed(correct->0)),
        correct is Some && trimmed(correct->0).len() > 0 && trimmed(selected).len() == 0
            ==> grade(selected, correct) is Wrong,
{
}

/// Grades one answer.
pub fn evaluate_answer(selected: &str, correct: Option<&str>) -> (g: AnswerOutcome)
    ensures
        g == grade(
            selected@,
            match correct {
                Some(c) => Some(c@),
                None => None,
            },
        ),
        g is Correct ==> correct is Some && trimmed(selected@) == trimmed(correct->0@),
        correct is Some && trimmed(correct->0@).len() > 0 && trimmed(selected@).len() == 0
            ==> g is Wrong,
{
    proof {
        lemma_grading(
            selected@,
            match correct {
                Some(c) => Some(c@),
                None => None,
            },
        );
    }
    match correct {
        None => AnswerOutcome::Skipped,
        Some(c) => {
            if is_blank(c) {
                AnswerOutcome::Skipped
            } else {
                let a = trim(selected);
                let b = trim(c);
                if a == b {
                    AnswerOutcome::Correct
                } else {
                    AnswerOutcome::Wrong
                }
            }
        },
    }
}

/// An evaluated answer: its question and chapter, whether it was correct,
/// and whether the AI check flagged it.
#[derive(Debug)]
pub struct EvaluatedAnswer {
    pub question_id: String,
    pub chapter_id: String,
    pub correct: bool,
    pub ai_flagged: bool,
}

/// What the databank holds of an answered question that grading needs: its
/// correct answer and its chapter (empty when it has none).
#[derive(Debug)]
pub struct StoredQuestion {
    pub correct_answer: String,
    pub chapter_id: String,
}

/// The stored correct answer of a question, `None` when it does not exist.
pub open spec fn stored_answer(q: Option<StoredQuestion>) -> Option<Seq<char>> {
    match q {
        Some(s) => Some(s.correct_answer@),
        None => None,
    }
}

/// An evaluated answer as (question, chapter, correct, flagged).
pub open spec fn evaluated_view(a: EvaluatedAnswer) -> (Seq<char>, Seq<char>, bool, bool) {
    (a.question_id@, a.chapter_id@, a.correct, a.ai_flagged)
}

/// The answers among the first `n` that are evaluated, in order: each
/// answer that is not skipped, with its question, its question's chapter,
/// and whether it is correct; none flagged yet.
pub open spec fn evaluated_upto(
    answers: Seq<Answer>,
    stored: Seq<Option<StoredQuestion>>,
    n: int,
) -> Seq<(Seq<char>, Seq<char>, bool, bool)>
    decreases n,
{
    if n <= 0 {
        Seq::empty()
    } else {
        let prev = evaluated_upto(answers, stored, n - 1);
        let a = answers[n - 1];
        match grade(a.selected_option@, stored_answer(stored[n - 1])) {
            AnswerOutcome::Skipped => prev,
            AnswerOutcome::Correct => prev.push(
                (a.question_id@, stored[n - 1]->0.chapter_id@, true, false),
            ),
            AnswerOutcome::Wrong => prev.push(
                (a.question_id@, stored[n - 1]->0.chapter_id@, false, false),
            ),
        }
    }
}

/// How many of the first `n` answers are skipped.
pub open spec fn skipped_upto(
    answers: Seq<Answer>,
    stored: Seq<Option<StoredQuestion>>,
    n: int,
) -> nat
    decreases n,
{
    if n <= 0 {
        0
    } else {
        skipped_upto(answers, stored, n - 1) + match grade(
            answers[n - 1].selected_option@,
            stored_answer(stored[n - 1]),
        ) {
            AnswerOutcome::Skipped => 1nat,
            _ => 0nat,
        }
    }
}

/// Every answer of a submission is either evaluated or skipped, once.
pub proof fn lemma_every_answer_counted(
    answers: Seq<Answer>,
    stored: Seq<Option<StoredQuestion>>,
    n: int,
)
    requires
        0 <= n <= answers.len(),
        answers.len() == stored.len(),
    ensures
        evaluated_upto(answers, stored, n).len() + skipped_upto(answers, stored, n) == n,
    decreases n,
{
    if n > 0 {
        lemma_every_answer_counted(answers, stored, n - 1);
    }
}

/// Grades the answers of a submission against what the databank holds of
/// each answered question (`stored[i]` for `answers[i]`, `None` when the
/// question does not exist): the evaluated answers in order, none flagged,
/// and the number skipped.
pub fn evaluate_submission(answers: &Vec<Answer>, stored: &Vec<Option<StoredQuestion>>) -> (r: (
    Vec<EvaluatedAnswer>,
    usize,
))
    requires
        answers@.len() == stored@.len(),
    ensures
        r.0@.map_values(|a: EvaluatedAnswer| evaluated_view(a)) == evaluated_upto(
            answers@,
            stored@,
            answers@.len() as int,
        ),
        r.1 == skipped_upto(answers@, stored@, answers@.len() as int),
        r.0@.len() + r.1 == answers@.len(),
{
    let mut out: Vec<EvaluatedAnswer> = Vec::new();
    let mut skipped: usize = 0;
    let mut i: usize = 0;
    while i < answers.len()
        invariant
            i <= answers@.len() == stored@.len(),
            out@.map_values(|a: EvaluatedAnswer| evaluated_view(a)) == evaluated_upto(
                answers@,
                stored@,
                i as int,
            ),
            skipped == skipped_upto(answers@, stored@, i as int),
            out@.len() + skipped == i,
        decreases answers.len() - i,
    {
        proof {
            lemma_every_answer_counted(answers@, stored@, i as int);
        }
        let a = &answers[i];
        let correct: Option<&str> = match &stored[i] {
            Some(q) => Some(q.correct_answer.as_str()),
            None => None,
        };
        assert(match correct {
            Some(c) => Some(c@),
            None => None,
        } == stored_answer(stored@[i as int]));
        let g = evaluate_answer(a.selected_option.as_str(), correct);
        let ghost before = out@;
        match g {
            AnswerOutcome::Skipped => {
                skipped = skipped + 1;
            },
            AnswerOutcome::Correct => {
                let chapter = match &stored[i] {
                    Some(q) => q.chapter_id.clone(),
                    None => String::new(),
                };
                out.push(EvaluatedAnswer {
                    question_id: a.question_id.clone(),
                    chapter_id: chapter,
                    correct: true,
                    ai_flagged: false,
                });
                assert(out@.map_values(|a: EvaluatedAnswer| evaluated_view(a)) =~= before.map_values(
                    |a: EvaluatedAnswer| evaluated_view(a),
                ).push(evaluated_view(out@[i as int - skipped as int])));
            },
            AnswerOutcome::Wrong => {
                let chapter = match &stored[i] {
                    Some(q) => q.chapter_id.clone(),
                    None => String::new(),
                };
                out.push(EvaluatedAnswer {
                    question_id: a.question_id.clone(),
                    chapter_id: chapter,
                    correct: false,
                    ai_flagged: false,
                });
                assert(out@.map_values(|a: EvaluatedAnswer| evaluated_view(a)) =~= before.map_values(
                    |a: EvaluatedAnswer| evaluated_view(a),
                ).push(evaluated_view(out@[i as int - skipped as int])));
            },
        }
        i = i + 1;
    }
    (out, skipped)
}

/// An answer earns its mark when it is correct and not flagged (a flagged
/// answer's score is zeroed).
pub open spec fn earned(a: EvaluatedAnswer) -> bool {
    a.correct && !a.ai_flagged
}

/// How many of the first `n` answers earn their mark.
pub open spec fn earned_upto(v: Seq<EvaluatedAnswer>, n: int) -> nat
    decreases n,
{
    if n <= 0 {
        0
    } else {
        earned_upto(v, n - 1) + if earned(v[n - 1]) {
            1nat
        } else {
            0nat
        }
    }
}

/// How many of the first `n` answers are flagged.
pub open spec fn flagged_upto(v: Seq<EvaluatedAnswer>, n: int) -> nat
    decreases n,
{
    if n <= 0 {
        0
    } else {
        flagged_upto(v, n - 1) + if v[n - 1].ai_flagged {
            1nat
        } else {
            0nat
        }
    }
}

/// The scorecard of a submission.
#[derive(Debug)]
pub struct Scorecard {
    pub questions_evaluated: usize,
    pub correct_count: i64,
    pub flagged_count: i64,
    pub is_ai_flagged: bool,
    pub penalty_points: i64,
    pub final_scorecard_total: i64,
}

/// The scorecard of the evaluated answers: the marks earned, the flagged
/// answers, a penalty of [`AI_PENALTY_MARKS`] per flagged answer, and the
/// total of marks earned less the penalty.
pub fn scorecard(v: &Vec<EvaluatedAnswer>) -> (s: Scorecard)
    requires
        v@.len() <= i64::MAX / AI_PENALTY_MARKS,
    ensures
        s.questions_evaluated == v@.len(),
        s.correct_count == earned_upto(v@, v@.len() as int),
        s.flagged_count == flagged_upto(v@, v@.len() as int),
        s.is_ai_flagged == (s.flagged_count > 0),
        s.penalty_points == s.flagged_count * AI_PENALTY_MARKS,
        s.final_scorecard_total == s.correct_count - s.penalty_points,
{
    let mut correct: i64 = 0;
    let mut flagged: i64 = 0;
    let mut i: usize = 0;
    while i < v.len()
        invariant
            i <= v@.len() <= i64::MAX / AI_PENALTY_MARKS,
            correct == earned_upto(v@, i as int),
            flagged == flagged_upto(v@, i as int),
            0 <= correct <= i,
            0 <= flagged <= i,
        decreases v.len() - i,
    {
        if v[i].correct && !v[i].ai_flagged {
            correct = correct + 1;
        }
        if v[i].ai_flagged {
            flagged = flagged + 1;
        }
        i = i + 1;
    }
    let penalty = flagged * AI_PENALTY_MARKS;
    Scorecard {
        questions_evaluated: v.len(),
        correct_count: correct,
        flagged_count: flagged,
        is_ai_flagged: flagged > 0,
        penalty_points: penalty,
        final_scorecard_total: correct - penalty,
    }
}

/// A chapter's activity from one submission: how many of its answers
/// earned their mark, out of how many evaluated.
#[derive(Debug)]
pub struct ChapterActivity {
    pub chapter_id: String,
    pub correct: i64,
    pub total: i64,
}

/// An activity record as (chapter, correct, total).
pub type ActivityView = (Seq<char>, int, int);

/// The view of a list of activity records.
pub open spec fn activity_view(v: Seq<ChapterActivity>) -> Seq<ActivityView> {
    v.map_values(|a: ChapterActivity| (a.chapter_id@, a.correct as int, a.total as int))
}

/// Some record of `acts` is for chapter `id`.
pub open spec fn has_chapter(acts: Seq<ActivityView>, id: Seq<char>) -> bool {
    exists|k: int| 0 <= k < acts.len() && acts[k].0 == id
}

/// The per-chapter activity of the answers, one record per chapter in the
/// order chapters first appear: each answer adds one to its chapter's
/// total, and one to its correct count when it earns its mark.
pub open spec fn activity_of(rows: Seq<EvaluatedAnswer>) -> Seq<ActivityView>
    decreases rows.len(),
{
    if rows.len() == 0 {
        Seq::empty()
    } else {
        let prev = activity_of(rows.drop_last());
        let r = rows.last();
        let e: int = if earned(r) {
            1
        } else {
            0
        };
        if has_chapter(prev, r.chapter_id@) {
            let k = choose|k: int| 0 <= k < prev.len() && prev[k].0 == r.chapter_id@;
            prev.update(k, (prev[k].0, prev[k].1 + e, prev[k].2 + 1))
        } else {
            prev.push((r.chapter_id@, e, 1))
        }
    }
}

/// No chapter has two records.
pub open spec fn chapters_distinct(acts: Seq<ActivityView>) -> bool {
    forall|i: int, j: int| 0 <= i < acts.len() && 0 <= j < acts.len() && i != j ==> acts[i].0 != acts[j].0
}

/// The sum of the totals of the records.
pub open spec fn sum_totals(acts: Seq<ActivityView>) -> int
    decreases acts.len(),
{
    if acts.len() == 0 {
        0
    } else {
        sum_totals(acts.drop_last()) + acts.last().2
    }
}

/// The sum of the correct counts of the records.
pub open spec fn sum_correct(acts: Seq<ActivityView>) -> int
    decreases acts.len(),
{
    if acts.len() == 0 {
        0
    } else {
        sum_correct(acts.drop_last()) + acts.last().1
    }
}

proof fn lemma_sums_update(acts: Seq<ActivityView>, k: int, x: ActivityView)
    requires
        0 <= k < acts.len(),
    ensures
        sum_totals(acts.update(k, x)) == sum_totals(acts) - acts[k].2 + x.2,
        sum_correct(acts.update(k, x)) == sum_correct(acts) - acts[k].1 + x.1,
    decreases acts.len(),
{
    let u = acts.update(k, x);
    if k == acts.len() - 1 {
        assert(u.drop_last() =~= acts.drop_last());
    } else {
        lemma_sums_update(acts.drop_last(), k, x);
        assert(u.drop_last() =~= acts.drop_last().update(k, x));
    }
}

/// The activity records are one per chapter, and together they count every
/// evaluated answer once, and every answer that earned its mark once.
pub proof fn lemma_activity_accounts(rows: Seq<EvaluatedAnswer>)
    ensures
        chapters_distinct(activity_of(rows)),
        sum_totals(activity_of(rows)) == rows.len(),
        sum_correct(activity_of(rows)) == earned_upto(rows, rows.len() as int),
        forall|i: int| 0 <= i < rows.len() ==> has_chapter(activity_of(rows), #[trigger] rows[i].chapter_id@),
    decreases rows.len(),
{
    if rows.len() > 0 {
        let front = rows.drop_last();
        lemma_activity_accounts(front);
        let prev = activity_of(front);
        let r = rows.last();
        let e: int = if earned(r) {
            1
        } else {
            0
        };
        assert(earned_upto(rows, rows.len() as int) == earned_upto(front, front.len() as int) + e) by {
            lemma_earned_prefix(rows, rows.len() - 1);
        }
        if has_chapter(prev, r.chapter_id@) {
            let k = choose|k: int| 0 <= k < prev.len() && prev[k].0 == r.chapter_id@;
            let x = (prev[k].0, prev[k].1 + e, prev[k].2 + 1);
            lemma_sums_update(prev, k, x);
            let now = prev.update(k, x);
            assert forall|i: int| 0 <= i < rows.len() implies has_chapter(now, #[trigger] rows[i].chapter_id@) by {
                if i < rows.len() - 1 {
                    assert(rows[i] == front[i]);
                    let j = choose|j: int| 0 <= j < prev.len() && prev[j].0 == front[i].chapter_id@;
                    assert(now[j].0 == prev[j].0);
                } else {
                    assert(now[k].0 == r.chapter_id@);
                }
            }
        } else {
            let now = prev.push((r.chapter_id@, e, 1));
            assert(now.drop_last() =~= prev);
            assert forall|i: int| 0 <= i < rows.len() implies has_chapter(now, #[trigger] rows[i].chapter_id@) by {
                if i < rows.len() - 1 {
                    assert(rows[i] == front[i]);
                    let j = choose|j: int| 0 <= j < prev.len() && prev[j].0 == front[i].chapter_id@;
                    assert(now[j].0 == prev[j].0);
                } else {
                    assert(now[prev.len() as int].0 == r.chapter_id@);
                }
            }
        }
    }
}

/// How many of the answers are of chapter `id`.
pub open spec fn chapter_total(rows: Seq<EvaluatedAnswer>, id: Seq<char>) -> nat
    decreases rows.len(),
{
    if rows.len() == 0 {
        0
    } else {
        chapter_total(rows.drop_last(), id) + if rows.last().chapter_id@ == id {
            1nat
        } else {
            0nat
        }
    }
}

/// How many of the answers are of chapter `id` and earn their mark.
pub open spec fn chapter_earned(rows: Seq<EvaluatedAnswer>, id: Seq<char>) -> nat
    decreases rows.len(),
{
    if rows.len() == 0 {
        0
    } else {
        chapter_earned(rows.drop_last(), id) + if rows.last().chapter_id@ == id && earned(
            rows.last(),
        ) {
            1nat
        } else {
            0nat
        }
    }
}

/// Each chapter's record counts that chapter's answers, and no other: its
/// total is the number of evaluated answers of the chapter and its correct
/// count the number of those that earn their mark; a chapter without a
/// record has no answers.
pub proof fn lemma_activity_per_chapter(rows: Seq<EvaluatedAnswer>)
    ensures
        forall|k: int|
            0 <= k < activity_of(rows).len() ==> (#[trigger] activity_of(rows)[k]).2 == chapter_total(
                rows,
                activity_of(rows)[k].0,
            ) && activity_of(rows)[k].1 == chapter_earned(rows, activity_of(rows)[k].0),
        forall|id: Seq<char>|
            #![trigger chapter_total(rows, id)]
            #![trigger chapter_earned(rows, id)]
            !has_chapter(activity_of(rows), id) ==> chapter_total(rows, id) == 0 && chapter_earned(
                rows,
                id,
            ) == 0,
    decreases rows.len(),
{
    if rows.len() > 0 {
        let front = rows.drop_last();
        lemma_activity_per_chapter(front);
        lemma_activity_accounts(front);
        let prev = activity_of(front);
        let r = rows.last();
        let rid = r.chapter_id@;
        let e: int = if earned(r) {
            1
        } else {
            0
        };
        let now = activity_of(rows);
        if has_chapter(prev, rid) {
            let k = choose|k: int| 0 <= k < prev.len() && prev[k].0 == rid;
            assert(now == prev.update(k, (prev[k].0, prev[k].1 + e, prev[k].2 + 1)));
            assert forall|j: int| 0 <= j < now.len() implies (#[trigger] now[j]).2 == chapter_total(
                rows,
                now[j].0,
            ) && now[j].1 == chapter_earned(rows, now[j].0) by {
                if j != k {
                    assert(now[j] == prev[j]);
                    assert(prev[j].0 != prev[k].0);
                }
            }
            assert forall|id: Seq<char>| !has_chapter(now, id) implies chapter_total(rows, id) == 0
                && chapter_earned(rows, id) == 0 by {
                if has_chapter(prev, id) {
                    let j = choose|j: int| 0 <= j < prev.len() && prev[j].0 == id;
                    assert(now[j].0 == id);
                }
                assert(id != rid) by {
                    assert(now[k].0 == rid);
                }
                assert(!has_chapter(prev, id));
                assert(chapter_total(front, id) == 0 && chapter_earned(front, id) == 0);
            }
        } else {
            assert(now == prev.push((rid, e, 1)));
            assert forall|j: int| 0 <= j < now.len() implies (#[trigger] now[j]).2 == chapter_total(
                rows,
                now[j].0,
            ) && now[j].1 == chapter_earned(rows, now[j].0) by {
                if j < prev.len() {
                    assert(now[j] == prev[j]);
                    assert(prev[j].0 != rid);
                } else {
                    assert(chapter_total(front, rid) == 0);
                }
            }
            assert forall|id: Seq<char>| !has_chapter(now, id) implies chapter_total(rows, id) == 0
                && chapter_earned(rows, id) == 0 by {
                if has_chapter(prev, id) {
                    let j = choose|j: int| 0 <= j < prev.len() && prev[j].0 == id;
                    assert(now[j].0 == id);
                }
                assert(id != rid) by {
                    assert(now[prev.len() as int].0 == rid);
                }
                assert(!has_chapter(prev, id));
                assert(chapter_total(front, id) == 0 && chapter_earned(front, id) == 0);
            }
        }
    }
}

/// Counting earned marks over a prefix: the last answer adds its mark.
proof fn lemma_earned_prefix(rows: Seq<EvaluatedAnswer>, n: int)
    requires
        0 <= n < rows.len(),
    ensures
        earned_upto(rows, n + 1) == earned_upto(rows.take(n), n) + if earned(rows[n]) {
            1nat
        } else {
            0nat
        },
    decreases n,
{
    lemma_earned_take(rows, n, n);
}

proof fn lemma_earned_take(rows: Seq<EvaluatedAnswer>, n: int, m: int)
    requires
        0 <= m <= n <= rows.len(),
    ensures
        earned_upto(rows.take(n), m) == earned_upto(rows, m),
    decreases m,
{
    if m > 0 {
        lemma_earned_take(rows, n, m - 1);
        assert(rows.take(n)[m - 1] == rows[m - 1]);
    }
}

/// The per-chapter activity that a submission records ([`activity_of`]).
pub fn chapter_activity(rows: &Vec<EvaluatedAnswer>) -> (acts: Vec<ChapterActivity>)
    requires
        rows@.len() < i64::MAX,
    ensures
        activity_view(acts@) == activity_of(rows@),
        forall|k: int|
            0 <= k < acts@.len() ==> (#[trigger] acts@[k]).total == chapter_total(
                rows@,
                acts@[k].chapter_id@,
            ) && acts@[k].correct == chapter_earned(rows@, acts@[k].chapter_id@),
{
    let mut acts: Vec<ChapterActivity> = Vec::new();
    let mut i: usize = 0;
    while i < rows.len()
        invariant
            i <= rows@.len() < i64::MAX,
            activity_view(acts@) == activity_of(rows@.take(i as int)),
            forall|k: int| 0 <= k < acts@.len() ==> 0 <= #[trigger] acts@[k].correct <= acts@[k].total <= i,
        decreases rows.len() - i,
    {
        proof {
            lemma_activity_accounts(rows@.take(i as int));
            assert(rows@.take(i + 1).drop_last() =~= rows@.take(i as int));
            assert(rows@.take(i + 1).last() == rows@[i as int]);
        }
        let ghost prev = activity_view(acts@);
        let r = &rows[i];
        let e: i64 = if r.correct && !r.ai_flagged {
            1
        } else {
            0
        };
        let mut k: usize = 0;
        while k < acts.len() && !str_eq(acts[k].chapter_id.as_str(), r.chapter_id.as_str())
            invariant
                k <= acts@.len(),
                prev == activity_view(acts@),
                forall|j: int| 0 <= j < k ==> acts@[j].chapter_id@ != r.chapter_id@,
                i < rows@.len() < i64::MAX,
                forall|j: int| 0 <= j < acts@.len() ==> 0 <= #[trigger] acts@[j].correct <= acts@[j].total <= i,
            decreases acts.len() - k,
        {
            k = k + 1;
        }
        if k < acts.len() {
            assert(prev[k as int].0 == r.chapter_id@);
            assert(has_chapter(prev, r.chapter_id@));
            proof {
                lemma_activity_accounts(rows@.take(i as int));
                let c = choose|c: int| 0 <= c < prev.len() && prev[c].0 == r.chapter_id@;
                assert(c == k);
            }
            let updated = ChapterActivity {
                chapter_id: acts[k].chapter_id.clone(),
                correct: acts[k].correct + e,
                total: acts[k].total + 1,
            };
            let ghost before = acts@;
            acts.set(k, updated);
            assert forall|j: int| 0 <= j < acts@.len() implies 0 <= #[trigger] acts@[j].correct
                <= acts@[j].total <= i + 1 by {
                if j != k {
                    assert(acts@[j] == before[j]);
                }
            }
            assert(activity_view(acts@) =~= prev.update(
                k as int,
                (prev[k as int].0, prev[k as int].1 + e, prev[k as int].2 + 1),
            ));
        } else {
            assert(!has_chapter(prev, r.chapter_id@));
            let ghost before = acts@;
            acts.push(ChapterActivity { chapter_id: r.chapter_id.clone(), correct: e, total: 1 });
            assert forall|j: int| 0 <= j < acts@.len() implies 0 <= #[trigger] acts@[j].correct
                <= acts@[j].total <= i + 1 by {
                if j < before.len() {
                    assert(acts@[j] == before[j]);
                }
            }
            assert(activity_view(acts@) =~= prev.push((r.chapter_id@, e as int, 1)));
        }
        i = i + 1;
    }
    assert(rows@.take(i as int) =~= rows@);
    proof {
        lemma_activity_per_chapter(rows@);
        assert forall|k: int| 0 <= k < acts@.len() implies (#[trigger] acts@[k]).total == chapter_total(
            rows@,
            acts@[k].chapter_id@,
        ) && acts@[k].correct == chapter_earned(rows@, acts@[k].chapter_id@) by {
            assert(activity_view(acts@)[k] == (acts@[k].chapter_id@, acts@[k].correct as int, acts@[k].total as int));
        }
    }
    acts
}

} // verus!
