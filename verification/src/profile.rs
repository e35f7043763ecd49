//! Student profiles: the accepted articleship firms and years, the values
//! an update stores, and the values shown when none are stored.
use vstd::prelude::*;
use crate::errors::{ApiError, UNPROCESSABLE_ENTITY, api_error};
use crate::strings::{concat3, is_one_of, join};

verus! {

/// A student's professional profile.
#[derive(Debug)]
pub struct ProfileResponse {
    pub user_id: String,
    pub avatar_url: String,
    pub articleship_firm: String,
    pub articleship_year: String,
    pub firm_location: String,
    pub updated_at: String,
}

/// Body of `PUT /api/user/profile`. When `avatar_url` is omitted the stored
/// avatar is kept.
#[derive(Debug)]
pub struct UpdateProfileRequest {
    pub avatar_url: Option<String>,
    pub articleship_firm: String,
    pub articleship_year: String,
    pub firm_location: String,
}

/// The accepted articleship firms, in the order they are listed.
pub open spec fn firms() -> Seq<Seq<char>> {
    seq![
        "Deloitte"@,
        "KPMG"@,
        "EY"@,
        "PwC"@,
        "Top-20 Mid-Firm"@,
        "Individual Practice"@,
        "None / Other"@,
    ]
}

/// The accepted articleship years, in the order they are listed.
pub open spec fn years() -> Seq<Seq<char>> {
    seq!["1st Year"@, "2nd Year"@, "Completed"@, "Direct Entry"@]
}

/// The views of a list of string slices.
pub open spec fn str_views(v: Seq<&str>) -> Seq<Seq<char>> {
    v.map_values(|s: &str| s@)
}

/// The accepted articleship firms.
pub fn valid_firms() -> (v: Vec<&'static str>)
    ensures
        str_views(v@) == firms(),
{
    let v = vec!["Deloitte", "KPMG", "EY", "PwC", "Top-20 Mid-Firm", "Individual Practice", "None / Other"];
    assert(str_views(v@) =~= firms());
    v
}

/// The accepted articleship years.
pub fn valid_years() -> (v: Vec<&'static str>)
    ensures
        str_views(v@) == years(),
{
    let v = vec!["1st Year", "2nd Year", "Completed", "Direct Entry"];
    assert(str_views(v@) =~= years());
    v
}

/// `list[..n]` joined by `sep`.
fn join_strs(list: &Vec<&str>, sep: &str) -> (r: String)
    ensures
        r@ == join(str_views(list@), sep@),
{
    let mut r = String::new();
    let mut i: usize = 0;
    while i < list.len()
        invariant
            i <= list@.len(),
            r@ == join(str_views(list@).take(i as int), sep@),
        decreases list.len() - i,
    {
        let ghost prev = str_views(list@).take(i as int);
        let ghost next = str_views(list@).take(i + 1);
        assert(next.drop_last() =~= prev);
        assert(next.last() == list@[i as int]@);
        if i > 0 {
            r.append(sep);
        } else {
            assert(next =~= seq![list@[i as int]@]);
        }
        r.append(list[i]);
        i = i + 1;
    }
    assert(str_views(list@).take(i as int) =~= str_views(list@));
    r
}

/// The values an update stores.
#[derive(Debug)]
pub struct ProfileUpdate {
    pub avatar_url: String,
    pub articleship_firm: String,
    pub articleship_year: String,
    pub firm_location: String,
}

/// Checks an update: a firm or a year outside the accepted lists is refused
/// with 422, naming the value and listing the accepted ones (the firm is
/// checked first). An accepted update stores its fields, with an empty
/// avatar (meaning "keep the stored one") when none is given.
pub fn prepare_profile_update(req: UpdateProfileRequest) -> (r: Result<ProfileUpdate, ApiError>)
    ensures
        !firms().contains(req.articleship_firm@) ==> (r matches Err(e) && e.status == UNPROCESSABLE_ENTITY
            && e.message@ == "Invalid articleship_firm '"@ + req.articleship_firm@
            + "'. Valid values: "@ + join(firms(), ", "@)),
        firms().contains(req.articleship_firm@) && !years().contains(req.articleship_year@) ==> (
        r matches Err(e) && e.status == UNPROCESSABLE_ENTITY && e.message@
            == "Invalid articleship_year '"@ + req.articleship_year@ + "'. Valid values: "@ + join(
            years(),
            ", "@,
        )),
        firms().contains(req.articleship_firm@) && years().contains(req.articleship_year@) ==> (
        r matches Ok(u) && u.avatar_url@ == match req.avatar_url {
            Some(a) => a@,
            None => Seq::<char>::empty(),
        } && u.articleship_firm == req.articleship_firm && u.articleship_year
            == req.articleship_year && u.firm_location == req.firm_location),
{
    let fs = valid_firms();
    if !is_one_of(req.articleship_firm.as_str(), &fs) {
        proof {
            if firms().contains(req.articleship_firm@) {
                let i = choose|i: int| 0 <= i < firms().len() && firms()[i] == req.articleship_firm@;
                assert(fs@[i]@ == str_views(fs@)[i]);
            }
        }
        let mut m = concat3("Invalid articleship_firm '", req.articleship_firm.as_str(), "'. Valid values: ");
        let listed = join_strs(&fs, ", ");
        m.append(listed.as_str());
        return Err(api_error(UNPROCESSABLE_ENTITY, m));
    }
    proof {
        let i = choose|i: int| 0 <= i < fs@.len() && fs@[i]@ == req.articleship_firm@;
        assert(str_views(fs@)[i] == req.articleship_firm@);
    }
    let ys = valid_years();
    if !is_one_of(req.articleship_year.as_str(), &ys) {
        proof {
            if years().contains(req.articleship_year@) {
                let i = choose|i: int| 0 <= i < years().len() && years()[i] == req.articleship_year@;
                assert(ys@[i]@ == str_views(ys@)[i]);
            }
        }
        let mut m = concat3("Invalid articleship_year '", req.articleship_year.as_str(), "'. Valid values: ");
        let listed = join_strs(&ys, ", ");
        m.append(listed.as_str());
        return Err(api_error(UNPROCESSABLE_ENTITY, m));
    }
    proof {
        let i = choose|i: int| 0 <= i < ys@.len() && ys@[i]@ == req.articleship_year@;
        assert(str_views(ys@)[i] == req.articleship_year@);
    }
    let avatar_url = match req.avatar_url {
        Some(a) => a,
        None => String::new(),
    };
    Ok(ProfileUpdate {
        avatar_url,
        articleship_firm: req.articleship_firm,
        articleship_year: req.articleship_year,
        firm_location: req.firm_location,
    })
}

/// The profile shown to a student who has none stored yet.
pub fn default_profile(user_id: String) -> (p: ProfileResponse)
    ensures
        p.user_id == user_id,
        p.avatar_url@ == Seq::<char>::empty(),
        p.articleship_firm@ == "None / Other"@,
        p.articleship_year@ == "1st Year"@,
        p.firm_location@ == Seq::<char>::empty(),
        p.updated_at@ == Seq::<char>::empty(),
{
    ProfileResponse {
        user_id,
        avatar_url: String::new(),
        articleship_firm: String::from_str("None / Other"),
        articleship_year: String::from_str("1st Year"),
        firm_location: String::new(),
        updated_at: String::new(),
    }
}

/// The value read from a column, or `default` when it could not be read.
pub open spec fn or_default(v: Option<String>, default: Seq<char>) -> Seq<char> {
    match v {
        Some(s) => s@,
        None => default,
    }
}

fn value_or(v: Option<String>, default: &str) -> (r: String)
    ensures
        r@ == or_default(v, default@),
{
    match v {
        Some(s) => s,
        None => String::from_str(default),
    }
}

/// A stored profile read column by column; a column that could not be read
/// shows the same value as an absent profile.
pub fn profile_from_row(
    user_id: String,
    avatar_url: Option<String>,
    articleship_firm: Option<String>,
    articleship_year: Option<String>,
    firm_location: Option<String>,
    updated_at: Option<String>,
) -> (p: ProfileResponse)
    ensures
        p.user_id == user_id,
        p.avatar_url@ == or_default(avatar_url, Seq::empty()),
        p.articleship_firm@ == or_default(articleship_firm, "None / Other"@),
        p.articleship_year@ == or_default(articleship_year, "1st Year"@),
        p.firm_location@ == or_default(firm_location, Seq::empty()),
        p.updated_at@ == or_default(updated_at, Seq::empty()),
{
    proof {
        reveal_strlit("");
    }
    ProfileResponse {
        user_id,
        avatar_url: value_or(avatar_url, ""),
        articleship_firm: value_or(articleship_firm, "None / Other"),
        articleship_year: value_or(articleship_year, "1st Year"),
        firm_location: value_or(firm_location, ""),
        updated_at: value_or(updated_at, ""),
    }
}

} // verus!
