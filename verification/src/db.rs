//! Database start-up decisions: whether to use the remote database, the
//! status reported for each way of falling back, and the syllabus the
//! chapters table is seeded with.
use vstd::prelude::*;
use crate::strings::{concat3, has_prefix, lowercase, starts_with, to_lowercase};

verus! {

/// Which database to open.
#[derive(Debug)]
pub enum DbChoice {
    /// The remote database at the configured URL.
    Remote,
    /// The local SQLite file, with the status that says why.
    Local { status: String },
}

/// Status when the remote URL has the wrong scheme.
pub const BAD_URL_STATUS: &'static str = "TURSO_DATABASE_URL must start with libsql://. Falling back to local SQLite.";

/// Status when the remote database is not configured.
pub const MISSING_ENV_STATUS: &'static str = "Connecting to local SQLite database (capadvisors.db) because TURSO_DATABASE_URL and/or TURSO_AUTH_TOKEN are not set...";

/// Status when the remote database answered.
pub const CONNECTED_STATUS: &'static str = "Connected to remote Turso database successfully.";

/// The remote database is used when both its URL and its token are set and
/// the URL, lowercased, begins with `libsql://`.
pub fn database_choice(url: Option<&str>, token: Option<&str>) -> (c: DbChoice)
    ensures
        match (url, token) {
            (Some(u), Some(_)) => if has_prefix(lowercase(u@), "libsql://"@) {
                c is Remote
            } else {
                c matches DbChoice::Local { status } && status@ == BAD_URL_STATUS@
            },
            _ => c matches DbChoice::Local { status } && status@ == MISSING_ENV_STATUS@,
        },
{
    match (url, token) {
        (Some(u), Some(_)) => {
            let lower = to_lowercase(u);
            if starts_with(lower.as_str(), "libsql://") {
                DbChoice::Remote
            } else {
                DbChoice::Local { status: String::from_str(BAD_URL_STATUS) }
            }
        },
        _ => DbChoice::Local { status: String::from_str(MISSING_ENV_STATUS) },
    }
}

/// The step at which reaching the remote database failed.
#[derive(Debug)]
pub enum RemoteStage {
    /// Building the client.
    Build,
    /// Opening a connection.
    Connect,
    /// Running the first query.
    Query,
}

/// What the step of a failure is called in the status.
pub open spec fn stage_text(stage: RemoteStage) -> Seq<char> {
    match stage {
        RemoteStage::Build => "Failed to build remote Turso db client: "@,
        RemoteStage::Connect => "Failed to connect to remote Turso db: "@,
        RemoteStage::Query => "Failed to query remote Turso db: "@,
    }
}

/// The status after falling back to the local file because the remote
/// database failed at `stage` with `error`.
pub fn remote_failure_status(stage: RemoteStage, error: &str) -> (s: String)
    ensures
        s@ == stage_text(stage) + error@ + ". Falling back to local SQLite."@,
{
    let head: &str = match stage {
        RemoteStage::Build => "Failed to build remote Turso db client: ",
        RemoteStage::Connect => "Failed to connect to remote Turso db: ",
        RemoteStage::Query => "Failed to query remote Turso db: ",
    };
    concat3(head, error, ". Falling back to local SQLite.")
}

/// The status after the schema could not be set up.
pub fn schema_failure_status(status: &str, error: &str) -> (s: String)
    ensures
        s@ == status@ + " Schema initialization failed: "@ + error@,
{
    concat3(status, " Schema initialization failed: ", error)
}

/// The chapters of the Advanced Financial Management syllabus, as (code,
/// name), in order.
pub open spec fn syllabus() -> Seq<(Seq<char>, Seq<char>)> {
    seq![
        ("AFM-CH01"@, "Financial Policy and Corporate Strategy"@),
        ("AFM-CH02"@, "Risk Management"@),
        ("AFM-CH03"@, "Advanced Capital Budgeting Decisions"@),
        ("AFM-CH04"@, "Security Analysis"@),
        ("AFM-CH05"@, "Security Valuation"@),
        ("AFM-CH06"@, "Portfolio Management"@),
        ("AFM-CH07"@, "Securitization"@),
        ("AFM-CH08"@, "Mutual Funds"@),
        ("AFM-CH09"@, "Derivatives Analysis and Valuation"@),
        ("AFM-CH10"@, "Foreign Exchange Exposure and Risk Management"@),
        ("AFM-CH11"@, "International Financial Management"@),
        ("AFM-CH12"@, "Interest Rate Risk Management"@),
        ("AFM-CH13"@, "Business Valuation"@),
        ("AFM-CH14"@, "Mergers, Acquisitions and Corporate Restructuring"@),
        ("AFM-CH15"@, "Startup Finance"@),
    ]
}

/// The chapters the database is seeded with.
pub fn afm_chapters() -> (v: Vec<(&'static str, &'static str)>)
    ensures
        v@.map_values(|p: (&str, &str)| (p.0@, p.1@)) == syllabus(),
{
    let v = vec![
        ("AFM-CH01", "Financial Policy and Corporate Strategy"),
        ("AFM-CH02", "Risk Management"),
        ("AFM-CH03", "Advanced Capital Budgeting Decisions"),
        ("AFM-CH04", "Security Analysis"),
        ("AFM-CH05", "Security Valuation"),
        ("AFM-CH06", "Portfolio Management"),
        ("AFM-CH07", "Securitization"),
        ("AFM-CH08", "Mutual Funds"),
        ("AFM-CH09", "Derivatives Analysis and Valuation"),
        ("AFM-CH10", "Foreign Exchange Exposure and Risk Management"),
        ("AFM-CH11", "International Financial Management"),
        ("AFM-CH12", "Interest Rate Risk Management"),
        ("AFM-CH13", "Business Valuation"),
        ("AFM-CH14", "Mergers, Acquisitions and Corporate Restructuring"),
        ("AFM-CH15", "Startup Finance"),
    ];
    assert(v@.map_values(|p: (&str, &str)| (p.0@, p.1@)) =~= syllabus());
    v
}

} // verus!
