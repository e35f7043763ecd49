use capadvisors_backend::ranking::{
    chapter_badge, display_name_for, focus_badges, games_delta, opponent_results,
    rank_tier_from_rating, tournament_entries, validate_standings, validate_tournament_request,
    ChapterScoreRow, Participant, ProcessTournamentRequest, TournamentEntry, TournamentStanding,
};

fn st(id: &str, placement: u32) -> TournamentStanding {
    TournamentStanding { student_id: id.into(), display_name: None, placement }
}

#[test]
fn valid_standings_pass() {
    assert!(validate_standings(&vec![st("a", 1), st("b", 2), st("c", 2)]).is_ok());
}

#[test]
fn first_fault_is_reported() {
    let e = validate_standings(&vec![st("a", 1), st("  ", 0)]).unwrap_err();
    assert_eq!((e.status, e.message.as_str()), (400, "student_id cannot be empty"));
    let e = validate_standings(&vec![st("a", 1), st("b", 0)]).unwrap_err();
    assert_eq!(e.message, "placement must be one-based");
    let e = validate_standings(&vec![st("a", 1), st("b", 2), st("a", 3)]).unwrap_err();
    assert_eq!(e.message, "duplicate student_id 'a'");
}

#[test]
fn a_tournament_needs_two_standings() {
    let e = validate_tournament_request(&ProcessTournamentRequest { standings: vec![st("a", 1)] })
        .unwrap_err();
    assert_eq!((e.status, e.message.as_str()), (400, "At least two tournament standings are required"));
    assert!(validate_tournament_request(&ProcessTournamentRequest {
        standings: vec![st("a", 1), st("b", 2)]
    })
    .is_ok());
}

fn entry(placement: u32, is_target: bool) -> TournamentEntry {
    TournamentEntry { placement, is_target }
}

#[test]
fn lower_placements_are_wins_and_higher_are_losses() {
    // the target placed 3rd
    let es = vec![entry(3, true), entry(4, false), entry(2, false), entry(1, false), entry(3, false)];
    let r = opponent_results(&es).unwrap();
    let got: Vec<(usize, bool)> = r.iter().map(|x| (x.opponent, x.won)).collect();
    assert_eq!(got, vec![(1, true), (2, false), (3, false)]);
}

#[test]
fn no_target_means_no_rating_period() {
    assert!(opponent_results(&vec![entry(1, false), entry(2, false)]).is_none());
}

#[test]
fn all_lower_placements_are_wins() {
    let es = vec![entry(1, true), entry(2, false), entry(3, false), entry(4, false)];
    assert!(opponent_results(&es).unwrap().iter().all(|x| x.won));
    let es = vec![entry(1, false), entry(2, false), entry(3, false), entry(4, true)];
    assert!(opponent_results(&es).unwrap().iter().all(|x| !x.won));
}

#[test]
fn games_delta_counts_the_rating_period_games() {
    let ps = vec![
        Participant { student_id: "a".into(), placement: 1 },
        Participant { student_id: "b".into(), placement: 2 },
        Participant { student_id: "c".into(), placement: 2 },
        Participant { student_id: "d".into(), placement: 4 },
    ];
    for t in 0..ps.len() {
        let es = tournament_entries(&ps, t);
        assert!(es[t].is_target);
        let games = opponent_results(&es).unwrap().len() as i64;
        assert_eq!(games, games_delta(&ps, t));
    }
    assert_eq!(games_delta(&ps, 1), 2);
    assert_eq!(games_delta(&ps, 0), 3);
}

#[test]
fn badges_follow_chapter_names() {
    assert_eq!(chapter_badge("Financial Policy and Corporate Strategy"), "Corp Strategy");
    assert_eq!(chapter_badge("Foreign Exchange Exposure and Risk Management"), "Risk Mgmt");
    assert_eq!(chapter_badge("Interest Rate Risk Management"), "Risk Mgmt");
    assert_eq!(chapter_badge("Business Valuation"), "Biz Valuation");
    assert_eq!(chapter_badge("Security Valuation"), "Valuation");
    assert_eq!(chapter_badge("Mergers, Acquisitions and Corporate Restructuring"), "M&A");
    assert_eq!(chapter_badge("International Financial Management"), "Intl Finance");
    assert_eq!(chapter_badge("Startup Finance"), "Startup");
    assert_eq!(chapter_badge("Taxation"), "General");
}

#[test]
fn rank_tiers() {
    assert_eq!(rank_tier_from_rating(2000), "Strategic Master");
    assert_eq!(rank_tier_from_rating(1999), "Advanced Analyst");
    assert_eq!(rank_tier_from_rating(1700), "Advanced Analyst");
    assert_eq!(rank_tier_from_rating(1400), "Senior Candidate");
    assert_eq!(rank_tier_from_rating(1399), "Novice Practitioner");
    assert_eq!(rank_tier_from_rating((1699.99f64).floor() as i64), "Senior Candidate");
    assert_eq!(rank_tier_from_rating(f64::NAN.floor() as i64), "Novice Practitioner");
}

#[test]
fn display_names() {
    let mut s = st("sid", 1);
    assert_eq!(display_name_for(&s, Some("Stored")), "Stored");
    assert_eq!(display_name_for(&s, None), "sid");
    s.display_name = Some("Given".into());
    assert_eq!(display_name_for(&s, Some("Stored")), "Given");
}

fn row(s: &str, c: &str) -> ChapterScoreRow {
    ChapterScoreRow { student_id: s.into(), chapter_name: c.into() }
}

#[test]
fn at_most_three_focus_badges_per_student() {
    let rows = vec![
        row("a", "Portfolio Management"),
        row("a", "Mutual Funds"),
        row("a", "Startup Finance"),
        row("a", "Derivatives Analysis and Valuation"),
        row("b", "Securitization"),
    ];
    let recs = focus_badges(&rows);
    assert_eq!(recs.len(), 2);
    assert_eq!(recs[0].student_id, "a");
    assert_eq!(recs[0].badges, vec!["Portfolio", "Mutual Funds", "Startup"]);
    assert_eq!(recs[1].student_id, "b");
    assert_eq!(recs[1].badges, vec!["Securitization"]);
}
