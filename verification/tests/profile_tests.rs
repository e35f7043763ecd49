use capadvisors_backend::profile::{
    default_profile, prepare_profile_update, profile_from_row, UpdateProfileRequest,
};

fn req(firm: &str, year: &str, avatar: Option<&str>) -> UpdateProfileRequest {
    UpdateProfileRequest {
        avatar_url: avatar.map(|a| a.to_string()),
        articleship_firm: firm.into(),
        articleship_year: year.into(),
        firm_location: "Mumbai".into(),
    }
}

#[test]
fn accepted_update_keeps_its_fields() {
    let u = prepare_profile_update(req("KPMG", "Completed", None)).unwrap();
    assert_eq!(u.avatar_url, "");
    assert_eq!(u.articleship_firm, "KPMG");
    assert_eq!(u.articleship_year, "Completed");
    assert_eq!(u.firm_location, "Mumbai");
    let u = prepare_profile_update(req("None / Other", "Direct Entry", Some("data:x"))).unwrap();
    assert_eq!(u.avatar_url, "data:x");
}

#[test]
fn unknown_firm_is_refused_first() {
    let e = prepare_profile_update(req("Acme", "Bogus", None)).unwrap_err();
    assert_eq!(e.status, 422);
    assert_eq!(
        e.message,
        "Invalid articleship_firm 'Acme'. Valid values: Deloitte, KPMG, EY, PwC, Top-20 Mid-Firm, Individual Practice, None / Other"
    );
}

#[test]
fn unknown_year_is_refused() {
    let e = prepare_profile_update(req("EY", "3rd Year", None)).unwrap_err();
    assert_eq!(e.status, 422);
    assert_eq!(
        e.message,
        "Invalid articleship_year '3rd Year'. Valid values: 1st Year, 2nd Year, Completed, Direct Entry"
    );
    assert!(prepare_profile_update(req("kpmg", "Completed", None)).is_err());
}

#[test]
fn defaults_for_missing_profile_and_columns() {
    let p = default_profile("u9".into());
    assert_eq!(p.user_id, "u9");
    assert_eq!(p.articleship_firm, "None / Other");
    assert_eq!(p.articleship_year, "1st Year");
    assert_eq!(p.avatar_url, "");
    let p = profile_from_row("u".into(), None, None, Some("2nd Year".into()), None, None);
    assert_eq!(p.articleship_firm, "None / Other");
    assert_eq!(p.articleship_year, "2nd Year");
    assert_eq!(p.updated_at, "");
}
