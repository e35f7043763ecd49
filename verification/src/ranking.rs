//! Tournament ranking rules that do not depend on the rating arithmetic:
//! validating standings, deciding who each participant beat and lost to,
//! how many games a tournament adds, display names, rank tiers and the
//! focus badge of a chapter.
use vstd::prelude::*;
use crate::errors::{ApiError, BAD_REQUEST, api_error};
use crate::strings::{concat3, contains, has_substring, is_blank, str_eq, trimmed};

verus! {

/// One row of a tournament's final standings.
#[derive(Debug)]
pub struct TournamentStanding {
    pub student_id: String,
    pub display_name: Option<String>,
    pub placement: u32,
}

/// Body of `POST /api/ranking/tournaments/{id}/process`.
#[derive(Debug)]
pub struct ProcessTournamentRequest {
    pub standings: Vec<TournamentStanding>,
}

/// Quiz activity of one day.
#[derive(Debug)]
pub struct ActivityDay {
    pub date: String,
    pub count: i64,
}

/// What is wrong with standing `i` of `s`, given that the standings before
/// it were accepted: a blank student id, a placement of zero, or a student
/// id already seen.
pub open spec fn standing_fault(s: Seq<TournamentStanding>, i: int) -> Option<(u16, Seq<char>)> {
    if trimmed(s[i].student_id@).len() == 0 {
        Some((BAD_REQUEST, "student_id cannot be empty"@))
    } else if s[i].placement == 0 {
        Some((BAD_REQUEST, "placement must be one-based"@))
    } else if exists|j: int| 0 <= j < i && s[j].student_id@ == s[i].student_id@ {
        Some((BAD_REQUEST, "duplicate student_id '"@ + s[i].student_id@ + "'"@))
    } else {
        None
    }
}

/// Every student id is non-blank, every placement one-based, and no student
/// id occurs twice.
pub open spec fn clean_standings(s: Seq<TournamentStanding>) -> bool {
    &&& forall|i: int| 0 <= i < s.len() ==> trimmed(#[trigger] s[i].student_id@).len() > 0 && s[i].placement > 0
    &&& forall|i: int, j: int|
        0 <= i < s.len() && 0 <= j < s.len() && i != j ==> s[i].student_id@ != s[j].student_id@
}

/// Checks the standings in order and refuses the first one at fault.
pub fn validate_standings(standings: &Vec<TournamentStanding>) -> (r: Result<(), ApiError>)
    ensures
        clean_standings(standings@) ==> r is Ok,
        r is Ok <==> forall|i: int| 0 <= i < standings@.len() ==> standing_fault(standings@, i) is None,
        r matches Err(e) ==> exists|i: int|
            0 <= i < standings@.len() && (forall|j: int| 0 <= j < i ==> standing_fault(standings@, j) is None)
                && standing_fault(standings@, i) == Some((e.status, e.message@)),
{
    proof {
        if clean_standings(standings@) {
            lemma_clean_standings_accepted(standings@);
        }
    }
    let mut i: usize = 0;
    while i < standings.len()
        invariant
            i <= standings@.len(),
            forall|j: int| 0 <= j < i ==> standing_fault(standings@, j) is None,
        decreases standings.len() - i,
    {
        let s = &standings[i];
        if is_blank(s.student_id.as_str()) {
            assert(standing_fault(standings@, i as int) == Some(
                (BAD_REQUEST, "student_id cannot be empty"@),
            ));
            return Err(api_error(BAD_REQUEST, String::from_str("student_id cannot be empty")));
        }
        if s.placement == 0 {
            assert(standing_fault(standings@, i as int) == Some(
                (BAD_REQUEST, "placement must be one-based"@),
            ));
            return Err(api_error(BAD_REQUEST, String::from_str("placement must be one-based")));
        }
        let mut j: usize = 0;
        while j < i
            invariant
                i < standings@.len(),
                j <= i,
                s == standings@[i as int],
                forall|k: int| 0 <= k < j ==> standings@[k].student_id@ != s.student_id@,
                forall|k: int| 0 <= k < i ==> standing_fault(standings@, k) is None,
                trimmed(s.student_id@).len() != 0,
                s.placement != 0,
            decreases i - j,
        {
            assert(standings@[j as int] == standings@[j as int]);
            if str_eq(standings[j].student_id.as_str(), s.student_id.as_str()) {
                let msg = concat3("duplicate student_id '", s.student_id.as_str(), "'");
                assert(standings@[j as int].student_id@ == standings@[i as int].student_id@);
                assert(standing_fault(standings@, i as int) == Some((BAD_REQUEST, msg@)));
                return Err(api_error(BAD_REQUEST, msg));
            }
            j = j + 1;
        }
        assert(standing_fault(standings@, i as int) is None);
        i = i + 1;
    }
    Ok(())
}

/// Standings that pass validation name each student once, every student id
/// is non-blank, and every placement is one-based.
pub proof fn lemma_valid_standings_distinct(s: Seq<TournamentStanding>)
    requires
        forall|i: int| 0 <= i < s.len() ==> standing_fault(s, i) is None,
    ensures
        forall|i: int, j: int|
            0 <= i < s.len() && 0 <= j < s.len() && i != j ==> s[i].student_id@ != s[j].student_id@,
        forall|i: int| 0 <= i < s.len() ==> trimmed(#[trigger] s[i].student_id@).len() > 0 && s[i].placement > 0,
{
    assert forall|i: int, j: int|
        0 <= i < s.len() && 0 <= j < s.len() && i != j implies s[i].student_id@ != s[j].student_id@ by {
        if i < j {
            assert(standing_fault(s, j) is None);
        } else {
            assert(standing_fault(s, i) is None);
        }
    }
    assert forall|i: int| 0 <= i < s.len() implies trimmed(#[trigger] s[i].student_id@).len() > 0
        && s[i].placement > 0 by {
        assert(standing_fault(s, i) is None);
    }
}

/// Standings are refused only for a blank student id, a zero placement or
/// a repeated student id: standings whose ids are all non-blank and
/// distinct and whose placements are all one-based have no fault, in
/// whatever order the rows come (so [`validate_standings`] accepts them).
pub proof fn lemma_clean_standings_accepted(s: Seq<TournamentStanding>)
    requires
        clean_standings(s),
    ensures
        forall|i: int| 0 <= i < s.len() ==> #[trigger] standing_fault(s, i) is None,
{
    assert forall|i: int| 0 <= i < s.len() implies #[trigger] standing_fault(s, i) is None by {
        assert(trimmed(s[i].student_id@).len() > 0);
        if exists|j: int| 0 <= j < i && s[j].student_id@ == s[i].student_id@ {
            let j = choose|j: int| 0 <= j < i && s[j].student_id@ == s[i].student_id@;
            assert(false);
        }
    }
}

/// Refuses a tournament with fewer than two standings, then validates the
/// standings.
pub fn validate_tournament_request(req: &ProcessTournamentRequest) -> (r: Result<(), ApiError>)
    ensures
        req.standings@.len() < 2 ==> (r matches Err(e) && e.status == BAD_REQUEST && e.message@
            == "At least two tournament standings are required"@),
        req.standings@.len() >= 2 ==> (r is Ok <==> forall|i: int|
            0 <= i < req.standings@.len() ==> standing_fault(req.standings@, i) is None),
{
    if req.standings.len() < 2 {
        return Err(
            api_error(BAD_REQUEST, String::from_str("At least two tournament standings are required")),
        );
    }
    validate_standings(&req.standings)
}

/// A row of the standings as the rating period sees it: its placement and
/// whether it is the player being rated.
#[derive(Debug)]
pub struct TournamentEntry {
    pub placement: u32,
    pub is_target: bool,
}

/// A game of the rated player against the row `opponent`: won when the
/// opponent placed lower (a larger placement number), lost when higher.
#[derive(Debug)]
pub struct OpponentResult {
    pub opponent: usize,
    pub won: bool,
}

/// `t` is the first row marked as the rated player.
pub open spec fn is_first_target(e: Seq<TournamentEntry>, t: int) -> bool {
    0 <= t < e.len() && e[t].is_target && forall|j: int| 0 <= j < t ==> !e[j].is_target
}

/// The games among the first `n` rows against a player placed `tp`: every
/// row not marked as the rated player and not tied with it, in order.
pub open spec fn results_upto(e: Seq<TournamentEntry>, tp: u32, n: int) -> Seq<OpponentResult>
    decreases n,
{
    if n <= 0 {
        Seq::empty()
    } else {
        let prev = results_upto(e, tp, n - 1);
        let x = e[n - 1];
        if !x.is_target && x.placement != tp {
            prev.push(OpponentResult { opponent: (n - 1) as usize, won: x.placement > tp })
        } else {
            prev
        }
    }
}

/// The games of a tournament for the first row marked as the rated player:
/// `None` when no row is marked (the rating is then left as it is).
pub fn opponent_results(entries: &Vec<TournamentEntry>) -> (r: Option<Vec<OpponentResult>>)
    ensures
        r is None <==> forall|i: int| 0 <= i < entries@.len() ==> !entries@[i].is_target,
        r matches Some(v) ==> exists|t: int|
            is_first_target(entries@, t) && v@ == results_upto(
                entries@,
                entries@[t].placement,
                entries@.len() as int,
            ),
{
    let mut t: usize = 0;
    while t < entries.len() && !entries[t].is_target
        invariant
            t <= entries@.len(),
            forall|j: int| 0 <= j < t ==> !entries@[j].is_target,
        decreases entries.len() - t,
    {
        t = t + 1;
    }
    if t == entries.len() {
        return None;
    }
    let tp = entries[t].placement;
    let mut v: Vec<OpponentResult> = Vec::new();
    let mut i: usize = 0;
    while i < entries.len()
        invariant
            i <= entries@.len(),
            tp == entries@[t as int].placement,
            v@ == results_upto(entries@, tp, i as int),
        decreases entries.len() - i,
    {
        let x = &entries[i];
        if !x.is_target && x.placement != tp {
            v.push(OpponentResult { opponent: i, won: x.placement > tp });
        }
        i = i + 1;
    }
    assert(is_first_target(entries@, t as int));
    Some(v)
}

/// A tournament participant as the game count sees it.
#[derive(Debug)]
pub struct Participant {
    pub student_id: String,
    pub placement: u32,
}

/// How many of the first `n` participants count as a game for participant
/// `t`: those with another student id and another placement.
pub open spec fn games_upto(p: Seq<Participant>, t: int, n: int) -> nat
    decreases n,
{
    if n <= 0 {
        0
    } else {
        games_upto(p, t, n - 1) + if p[n - 1].student_id@ != p[t].student_id@ && p[n - 1].placement
            != p[t].placement {
            1nat
        } else {
            0nat
        }
    }
}

/// The standings as the rating period of participant `target` sees them:
/// every row keeps its placement, and the rows with the target's student id
/// are marked as the rated player.
pub fn tournament_entries(p: &Vec<Participant>, target: usize) -> (r: Vec<TournamentEntry>)
    requires
        target < p@.len(),
    ensures
        r@.len() == p@.len(),
        forall|k: int|
            0 <= k < p@.len() ==> (#[trigger] r@[k]).placement == p@[k].placement && r@[k].is_target
                == (p@[k].student_id@ == p@[target as int].student_id@),
{
    let mut r: Vec<TournamentEntry> = Vec::new();
    let mut k: usize = 0;
    while k < p.len()
        invariant
            target < p@.len(),
            k <= p@.len(),
            r@.len() == k,
            forall|j: int|
                0 <= j < k ==> (#[trigger] r@[j]).placement == p@[j].placement && r@[j].is_target
                    == (p@[j].student_id@ == p@[target as int].student_id@),
        decreases p.len() - k,
    {
        let is_target = str_eq(p[k].student_id.as_str(), p[target].student_id.as_str());
        r.push(TournamentEntry { placement: p[k].placement, is_target });
        k = k + 1;
    }
    r
}

/// The games a tournament adds to participant `target`: the participants
/// with another student id and another placement (cast as `count() as
/// i64` casts it).
pub fn games_delta(p: &Vec<Participant>, target: usize) -> (d: i64)
    requires
        target < p@.len(),
    ensures
        d == games_upto(p@, target as int, p@.len() as int) as i64,
{
    let mut count: usize = 0;
    let mut k: usize = 0;
    while k < p.len()
        invariant
            target < p@.len(),
            k <= p@.len(),
            count == games_upto(p@, target as int, k as int),
            count <= k,
        decreases p.len() - k,
    {
        if !str_eq(p[k].student_id.as_str(), p[target].student_id.as_str()) && p[k].placement
            != p[target].placement {
            count = count + 1;
        }
        k = k + 1;
    }
    count as i64
}

/// The number of games of `results_upto` equals the game count when the
/// rows marked as the target are exactly those sharing its student id.
proof fn lemma_results_count(
    p: Seq<Participant>,
    e: Seq<TournamentEntry>,
    t: int,
    n: int,
)
    requires
        e.len() == p.len(),
        0 <= t < p.len(),
        0 <= n <= p.len(),
        forall|k: int|
            0 <= k < p.len() ==> (#[trigger] e[k]).placement == p[k].placement && e[k].is_target == (
            p[k].student_id@ == p[t].student_id@),
    ensures
        results_upto(e, p[t].placement, n).len() == games_upto(p, t, n),
    decreases n,
{
    if n > 0 {
        lemma_results_count(p, e, t, n - 1);
        assert(e[n - 1].placement == p[n - 1].placement);
    }
}

/// When the student ids are distinct (as validated standings are), the
/// rating period of every participant finds that participant as its rated
/// player, and plays exactly as many games as the tournament adds to the
/// participant's game count.
pub proof fn lemma_games_match_rating_period(p: Seq<Participant>, t: int, e: Seq<TournamentEntry>)
    requires
        0 <= t < p.len(),
        forall|i: int, j: int|
            0 <= i < p.len() && 0 <= j < p.len() && i != j ==> p[i].student_id@ != p[j].student_id@,
        e.len() == p.len(),
        forall|k: int|
            0 <= k < p.len() ==> (#[trigger] e[k]).placement == p[k].placement && e[k].is_target == (
            p[k].student_id@ == p[t].student_id@),
    ensures
        is_first_target(e, t),
        results_upto(e, e[t].placement, e.len() as int).len() == games_upto(p, t, p.len() as int),
{
    assert(e[t].is_target);
    assert forall|j: int| 0 <= j < t implies !e[j].is_target by {
        assert(e[j].is_target == (p[j].student_id@ == p[t].student_id@));
    }
    lemma_results_count(p, e, t, p.len() as int);
}

/// The focus badge of a chapter: the label of the first keyword, in a
/// fixed order, that the chapter name contains; `General` when none.
pub open spec fn badge_of(name: Seq<char>) -> Seq<char> {
    if has_substring(name, "Financial Policy"@) {
        "Corp Strategy"@
    } else if has_substring(name, "Risk Management"@) {
        "Risk Mgmt"@
    } else if has_substring(name, "Capital Budgeting"@) {
        "Cap Budget"@
    } else if has_substring(name, "Security Analysis"@) {
        "Sec Analysis"@
    } else if has_substring(name, "Security Valuation"@) {
        "Valuation"@
    } else if has_substring(name, "Portfolio"@) {
        "Portfolio"@
    } else if has_substring(name, "Securitization"@) {
        "Securitization"@
    } else if has_substring(name, "Mutual Funds"@) {
        "Mutual Funds"@
    } else if has_substring(name, "Derivatives"@) {
        "Derivatives"@
    } else if has_substring(name, "Foreign Exchange"@) {
        "Forex"@
    } else if has_substring(name, "International"@) {
        "Intl Finance"@
    } else if has_substring(name, "Interest Rate"@) {
        "Interest Rate"@
    } else if has_substring(name, "Business Valuation"@) {
        "Biz Valuation"@
    } else if has_substring(name, "Mergers"@) {
        "M&A"@
    } else if has_substring(name, "Startup"@) {
        "Startup"@
    } else {
        "General"@
    }
}

/// The focus badge label of the chapter named `name`.
pub fn chapter_badge(name: &str) -> (badge: String)
    ensures
        badge@ == badge_of(name@),
{
    let label: &str = if contains(name, "Financial Policy") {
        "Corp Strategy"
    } else if contains(name, "Risk Management") {
        "Risk Mgmt"
    } else if contains(name, "Capital Budgeting") {
        "Cap Budget"
    } else if contains(name, "Security Analysis") {
        "Sec Analysis"
    } else if contains(name, "Security Valuation") {
        "Valuation"
    } else if contains(name, "Portfolio") {
        "Portfolio"
    } else if contains(name, "Securitization") {
        "Securitization"
    } else if contains(name, "Mutual Funds") {
        "Mutual Funds"
    } else if contains(name, "Derivatives") {
        "Derivatives"
    } else if contains(name, "Foreign Exchange") {
        "Forex"
    } else if contains(name, "International") {
        "Intl Finance"
    } else if contains(name, "Interest Rate") {
        "Interest Rate"
    } else if contains(name, "Business Valuation") {
        "Biz Valuation"
    } else if contains(name, "Mergers") {
        "M&A"
    } else if contains(name, "Startup") {
        "Startup"
    } else {
        "General"
    };
    String::from_str(label)
}

/// The rank tier of a rating whose integer part, rounded down, is `r`.
pub open spec fn tier_of(r: int) -> Seq<char> {
    if r >= 2000 {
        "Strategic Master"@
    } else if r >= 1700 {
        "Advanced Analyst"@
    } else if r >= 1400 {
        "Senior Candidate"@
    } else {
        "Novice Practitioner"@
    }
}

/// The standing of a tier, from `Novice Practitioner` (0) to
/// `Strategic Master` (3).
pub open spec fn tier_level(r: int) -> nat {
    if r >= 2000 {
        3
    } else if r >= 1700 {
        2
    } else if r >= 1400 {
        1
    } else {
        0
    }
}

/// The rank tier of a rating, given the rating rounded down to an integer
/// (`rating.floor() as i64`): the tier thresholds are whole numbers, so the
/// rounded value falls in the same tier as the rating itself.
pub fn rank_tier_from_rating(rating_floor: i64) -> (tier: String)
    ensures
        tier@ == tier_of(rating_floor as int),
{
    let t: &str = if rating_floor >= 2000 {
        "Strategic Master"
    } else if rating_floor >= 1700 {
        "Advanced Analyst"
    } else if rating_floor >= 1400 {
        "Senior Candidate"
    } else {
        "Novice Practitioner"
    };
    String::from_str(t)
}

/// A higher rating never lands in a lower tier, and the tier name is
/// determined by its level.
pub proof fn lemma_tier_monotone(r1: int, r2: int)
    requires
        r1 <= r2,
    ensures
        tier_level(r1) <= tier_level(r2),
        tier_level(r1) == tier_level(r2) ==> tier_of(r1) == tier_of(r2),
{
}

/// The name shown for a participant: the name given with the standing,
/// else the stored display name, else the student id.
pub fn display_name_for(standing: &TournamentStanding, stored: Option<&str>) -> (name: String)
    ensures
        name@ == match standing.display_name {
            Some(n) => n@,
            None => match stored {
                Some(s) => s@,
                None => standing.student_id@,
            },
        },
{
    match &standing.display_name {
        Some(n) => n.clone(),
        None => match stored {
            Some(s) => String::from_str(s),
            None => standing.student_id.clone(),
        },
    }
}

/// One row of a student's per-chapter scores, best chapters first within
/// each student: the student and the chapter's name.
#[derive(Debug)]
pub struct ChapterScoreRow {
    pub student_id: String,
    pub chapter_name: String,
}

/// The focus badges of one student.
#[derive(Debug)]
pub struct StudentBadges {
    pub student_id: String,
    pub badges: Vec<String>,
}

/// The most focus badges a student shows.
pub const MAX_FOCUS_BADGES: usize = 3;

/// A badge record as (student, badges).
pub type BadgesView = (Seq<char>, Seq<Seq<char>>);

/// The views of a list of strings.
pub open spec fn label_views(v: Seq<String>) -> Seq<Seq<char>> {
    v.map_values(|s: String| s@)
}

/// The view of a list of badge records.
pub open spec fn badges_view(v: Seq<StudentBadges>) -> Seq<BadgesView> {
    v.map_values(|b: StudentBadges| (b.student_id@, label_views(b.badges@)))
}

/// Some record of `recs` is for student `id`.
pub open spec fn has_student(recs: Seq<BadgesView>, id: Seq<char>) -> bool {
    exists|k: int| 0 <= k < recs.len() && recs[k].0 == id
}

/// The focus badges of the rows, one record per student in the order the
/// students first appear: each row adds its chapter's badge to its
/// student's record while that record holds fewer than three.
pub open spec fn badges_of(rows: Seq<ChapterScoreRow>) -> Seq<BadgesView>
    decreases rows.len(),
{
    if rows.len() == 0 {
        Seq::empty()
    } else {
        let prev = badges_of(rows.drop_last());
        let r = rows.last();
        if has_student(prev, r.student_id@) {
            let k = choose|k: int| 0 <= k < prev.len() && prev[k].0 == r.student_id@;
            if prev[k].1.len() < MAX_FOCUS_BADGES {
                prev.update(k, (prev[k].0, prev[k].1.push(badge_of(r.chapter_name@))))
            } else {
                prev
            }
        } else {
            prev.push((r.student_id@, seq![badge_of(r.chapter_name@)]))
        }
    }
}

/// No student has two records.
pub open spec fn students_distinct(recs: Seq<BadgesView>) -> bool {
    forall|i: int, j: int| 0 <= i < recs.len() && 0 <= j < recs.len() && i != j ==> recs[i].0 != recs[j].0
}

/// Every student of the rows gets one record, with between one and three
/// badges.
pub proof fn lemma_badges_shape(rows: Seq<ChapterScoreRow>)
    ensures
        students_distinct(badges_of(rows)),
        forall|k: int|
            0 <= k < badges_of(rows).len() ==> 0 < (#[trigger] badges_of(rows)[k]).1.len()
                <= MAX_FOCUS_BADGES,
        forall|i: int| 0 <= i < rows.len() ==> has_student(badges_of(rows), #[trigger] rows[i].student_id@),
    decreases rows.len(),
{
    if rows.len() > 0 {
        let front = rows.drop_last();
        lemma_badges_shape(front);
        let prev = badges_of(front);
        let r = rows.last();
        let now = badges_of(rows);
        if has_student(prev, r.student_id@) {
            let k = choose|k: int| 0 <= k < prev.len() && prev[k].0 == r.student_id@;
            assert forall|i: int| 0 <= i < rows.len() implies has_student(now, #[trigger] rows[i].student_id@) by {
                if i < rows.len() - 1 {
                    assert(rows[i] == front[i]);
                    let j = choose|j: int| 0 <= j < prev.len() && prev[j].0 == front[i].student_id@;
                    assert(now[j].0 == prev[j].0);
                } else {
                    assert(now[k].0 == r.student_id@);
                }
            }
        } else {
            assert forall|i: int| 0 <= i < rows.len() implies has_student(now, #[trigger] rows[i].student_id@) by {
                if i < rows.len() - 1 {
                    assert(rows[i] == front[i]);
                    let j = choose|j: int| 0 <= j < prev.len() && prev[j].0 == front[i].student_id@;
                    assert(now[j].0 == prev[j].0);
                } else {
                    assert(now[prev.len() as int].0 == r.student_id@);
                }
            }
        }
    }
}

/// The focus badges of every student ([`badges_of`]).
pub fn focus_badges(rows: &Vec<ChapterScoreRow>) -> (recs: Vec<StudentBadges>)
    ensures
        badges_view(recs@) == badges_of(rows@),
{
    let mut recs: Vec<StudentBadges> = Vec::new();
    let mut i: usize = 0;
    while i < rows.len()
        invariant
            i <= rows@.len(),
            badges_view(recs@) == badges_of(rows@.take(i as int)),
        decreases rows.len() - i,
    {
        proof {
            assert(rows@.take(i + 1).drop_last() =~= rows@.take(i as int));
            assert(rows@.take(i + 1).last() == rows@[i as int]);
        }
        let ghost prev = badges_view(recs@);
        let r = &rows[i];
        let mut k: usize = 0;
        while k < recs.len() && !str_eq(recs[k].student_id.as_str(), r.student_id.as_str())
            invariant
                k <= recs@.len(),
                prev == badges_view(recs@),
                forall|j: int| 0 <= j < k ==> recs@[j].student_id@ != r.student_id@,
            decreases recs.len() - k,
        {
            k = k + 1;
        }
        if k < recs.len() {
            assert(prev[k as int].0 == r.student_id@);
            proof {
                lemma_badges_shape(rows@.take(i as int));
                let c = choose|c: int| 0 <= c < prev.len() && prev[c].0 == r.student_id@;
                assert(c == k);
            }
            if recs[k].badges.len() < MAX_FOCUS_BADGES {
                let badge = chapter_badge(r.chapter_name.as_str());
                let ghost before = recs@;
                let mut labels: Vec<String> = Vec::new();
                let mut j: usize = 0;
                while j < recs[k].badges.len()
                    invariant
                        k < recs@.len(),
                        recs@ == before,
                        j <= recs@[k as int].badges@.len(),
                        label_views(labels@) == label_views(recs@[k as int].badges@).take(j as int),
                    decreases recs@[k as int].badges@.len() - j,
                {
                    let x = recs[k].badges[j].clone();
                    let ghost lv = label_views(labels@);
                    labels.push(x);
                    assert(label_views(labels@) =~= lv.push(x@));
                    assert(label_views(recs@[k as int].badges@).take(j + 1) =~= lv.push(x@));
                    j = j + 1;
                }
                assert(label_views(recs@[k as int].badges@).take(j as int) =~= label_views(
                    recs@[k as int].badges@,
                ));
                let ghost lv = label_views(labels@);
                labels.push(badge);
                assert(label_views(labels@) =~= lv.push(badge_of(r.chapter_name@)));
                let updated = StudentBadges { student_id: recs[k].student_id.clone(), badges: labels };
                recs.set(k, updated);
                assert(badges_view(recs@) =~= prev.update(
                    k as int,
                    (prev[k as int].0, prev[k as int].1.push(badge_of(r.chapter_name@))),
                ));
            }
        } else {
            assert(!has_student(prev, r.student_id@));
            let mut labels: Vec<String> = Vec::new();
            labels.push(chapter_badge(r.chapter_name.as_str()));
            assert(label_views(labels@) =~= seq![badge_of(r.chapter_name@)]);
            recs.push(StudentBadges { student_id: r.student_id.clone(), badges: labels });
            assert(badges_view(recs@) =~= prev.push((r.student_id@, seq![badge_of(r.chapter_name@)])));
        }
        i = i + 1;
    }
    assert(rows@.take(i as int) =~= rows@);
    recs
}

} // verus!
