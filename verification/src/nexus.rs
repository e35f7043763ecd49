//! Ingestion of study material: chunking a document, classifying a chunk
//! to its chapter by keywords, choosing the chapter a chunk is mapped to,
//! the classification prompt, the fallback questions, and reading stored
//! questions back.
use vstd::prelude::*;
use crate::errors::{ApiError, BAD_REQUEST, api_error};
use crate::prompts::{
    CLASSIFY_CHUNK_CLOSE, CLASSIFY_CHUNK_OPEN, CLASSIFY_HINT_CLOSE, CLASSIFY_HINT_MIDDLE,
    CLASSIFY_HINT_OPEN, CLASSIFY_INSTRUCTIONS, owned_views,
};
use crate::profile::str_views;
use crate::strings::{
    chars_of, concat3, contains_chars, ends_with, has_substring, has_suffix, lowercase, str_eq,
    to_lowercase, words,
};
use crate::text::{lemma_chunk_word_counts, sliding_window_chunks, string_views, window_texts, windows, word_count};

verus! {

/// Per-chapter coverage of the uploaded material.
#[derive(Debug)]
pub struct ChapterCoverage {
    pub chapter_id: String,
    pub chapter_code: String,
    pub chapter_name: String,
    pub mapped_chunks_count: i64,
    pub total_word_count: i64,
    pub total_questions: i64,
}

/// A multiple-choice question generated for a chunk.
#[derive(Debug)]
pub struct GeminiQuestion {
    pub difficulty: String,
    pub scenario: String,
    pub options: Vec<String>,
    pub correct_option: String,
    pub explanation: String,
}

/// A stored question as it is served.
#[derive(Debug)]
pub struct QuestionResponse {
    pub id: String,
    pub chapter_id: String,
    pub difficulty: String,
    pub scenario: String,
    pub options: Vec<String>,
    pub correct_option: String,
    pub explanation: String,
}

/// A chapter of the syllabus.
#[derive(Debug, Clone)]
pub struct ChapterInfo {
    pub id: String,
    pub code: String,
    pub name: String,
}

/// A copy of a chapter.
pub fn copy_chapter(c: &ChapterInfo) -> (r: ChapterInfo)
    ensures
        r == *c,
{
    ChapterInfo { id: c.id.clone(), code: c.code.clone(), name: c.name.clone() }
}

/// The number of words per chunk of an uploaded document.
pub const CHUNK_WORDS: usize = 900;

/// The keywords that point to chapter `code`; none for an unknown code.
pub open spec fn chapter_keywords(code: Seq<char>) -> Seq<Seq<char>> {
    if code == "AFM-CH01"@ {
        seq!["corporate strategy"@, "strategic financial"@, "financial policy"@]
    } else if code == "AFM-CH02"@ {
        seq!["risk management"@, "var"@, "value at risk"@]
    } else if code == "AFM-CH03"@ {
        seq!["capital budgeting"@, "npv"@, "irr"@, "sensitivity"@]
    } else if code == "AFM-CH04"@ {
        seq!["security analysis"@, "fundamental"@, "technical"@, "efficient market"@]
    } else if code == "AFM-CH05"@ {
        seq!["valuation"@, "equity"@, "bond"@, "dividend discount"@]
    } else if code == "AFM-CH06"@ {
        seq!["portfolio"@, "capm"@, "beta"@, "sharpe"@, "markowitz"@]
    } else if code == "AFM-CH07"@ {
        seq!["securitization"@, "spv"@, "pass through"@]
    } else if code == "AFM-CH08"@ {
        seq!["mutual fund"@, "nav"@, "net asset value"@, "expense ratio"@]
    } else if code == "AFM-CH09"@ {
        seq!["derivative"@, "option"@, "future"@, "black scholes"@, "hedging"@]
    } else if code == "AFM-CH10"@ {
        seq!["foreign exchange"@, "forex"@, "exchange rate"@, "arbitrage"@, "currency"@]
    } else if code == "AFM-CH11"@ {
        seq!["international"@, "adr"@, "gdr"@, "fdi"@]
    } else if code == "AFM-CH12"@ {
        seq!["interest rate"@, "fra"@, "forward rate agreement"@, "swap"@]
    } else if code == "AFM-CH13"@ {
        seq!["business valuation"@, "free cash flow"@, "fcf"@, "enterprise value"@]
    } else if code == "AFM-CH14"@ {
        seq!["merger"@, "acquisition"@, "takeover"@, "synergy"@]
    } else if code == "AFM-CH15"@ {
        seq!["startup"@, "venture capital"@, "angel funding"@, "crowdfunding"@]
    } else {
        Seq::empty()
    }
}

/// The keywords that point to chapter `code`.
pub fn keywords_for(code: &str) -> (kws: Vec<&'static str>)
    ensures
        str_views(kws@) == chapter_keywords(code@),
{
    let kws: Vec<&'static str> = if str_eq(code, "AFM-CH01") {
        vec!["corporate strategy", "strategic financial", "financial policy"]
    } else if str_eq(code, "AFM-CH02") {
        vec!["risk management", "var", "value at risk"]
    } else if str_eq(code, "AFM-CH03") {
        vec!["capital budgeting", "npv", "irr", "sensitivity"]
    } else if str_eq(code, "AFM-CH04") {
        vec!["security analysis", "fundamental", "technical", "efficient market"]
    } else if str_eq(code, "AFM-CH05") {
        vec!["valuation", "equity", "bond", "dividend discount"]
    } else if str_eq(code, "AFM-CH06") {
        vec!["portfolio", "capm", "beta", "sharpe", "markowitz"]
    } else if str_eq(code, "AFM-CH07") {
        vec!["securitization", "spv", "pass through"]
    } else if str_eq(code, "AFM-CH08") {
        vec!["mutual fund", "nav", "net asset value", "expense ratio"]
    } else if str_eq(code, "AFM-CH09") {
        vec!["derivative", "option", "future", "black scholes", "hedging"]
    } else if str_eq(code, "AFM-CH10") {
        vec!["foreign exchange", "forex", "exchange rate", "arbitrage", "currency"]
    } else if str_eq(code, "AFM-CH11") {
        vec!["international", "adr", "gdr", "fdi"]
    } else if str_eq(code, "AFM-CH12") {
        vec!["interest rate", "fra", "forward rate agreement", "swap"]
    } else if str_eq(code, "AFM-CH13") {
        vec!["business valuation", "free cash flow", "fcf", "enterprise value"]
    } else if str_eq(code, "AFM-CH14") {
        vec!["merger", "acquisition", "takeover", "synergy"]
    } else if str_eq(code, "AFM-CH15") {
        vec!["startup", "venture capital", "angel funding", "crowdfunding"]
    } else {
        Vec::new()
    };
    assert(str_views(kws@) =~= chapter_keywords(code@));
    kws
}

/// How many of `kws` occur in `lower`.
pub open spec fn keyword_hits(lower: Seq<char>, kws: Seq<Seq<char>>) -> nat
    decreases kws.len(),
{
    if kws.len() == 0 {
        0
    } else {
        keyword_hits(lower, kws.drop_last()) + if has_substring(lower, kws.last()) {
            1nat
        } else {
            0nat
        }
    }
}

/// The hit count of a keyword list is the number of its keywords that
/// occur in the text (each counted once, however often it occurs).
pub proof fn lemma_keyword_hits_counts(lower: Seq<char>, kws: Seq<Seq<char>>)
    ensures
        keyword_hits(lower, kws) == kws.filter(|k: Seq<char>| has_substring(lower, k)).len(),
    decreases kws.len(),
{
    reveal(Seq::filter);
    if kws.len() > 0 {
        lemma_keyword_hits_counts(lower, kws.drop_last());
    }
}

/// Hits add up: the hits of two keyword lists laid end to end are the hits
/// of the first plus the hits of the second.
pub proof fn lemma_keyword_hits_add(lower: Seq<char>, a: Seq<Seq<char>>, b: Seq<Seq<char>>)
    ensures
        keyword_hits(lower, a + b) == keyword_hits(lower, a) + keyword_hits(lower, b),
    decreases b.len(),
{
    if b.len() == 0 {
        assert(a + b =~= a);
    } else {
        lemma_keyword_hits_add(lower, a, b.drop_last());
        assert((a + b).drop_last() =~= a + b.drop_last());
        assert((a + b).last() == b.last());
    }
}

/// The codes of a list of chapters.
pub open spec fn codes(chapters: Seq<ChapterInfo>) -> Seq<Seq<char>> {
    chapters.map_values(|c: ChapterInfo| c.code@)
}

/// The keyword classification over the first `n` chapters of `codes`: the
/// first chapter with the most keyword hits, and that count; `AFM-CH01`
/// with a count of zero when no chapter has a hit.
pub open spec fn classify_upto(lower: Seq<char>, codes: Seq<Seq<char>>, n: int) -> (Seq<char>, nat)
    decreases n,
{
    if n <= 0 {
        ("AFM-CH01"@, 0)
    } else {
        let (best, max) = classify_upto(lower, codes, n - 1);
        let h = keyword_hits(lower, chapter_keywords(codes[n - 1]));
        if h > max {
            (codes[n - 1], h)
        } else {
            (best, max)
        }
    }
}

/// The number of `kws` that occur in `lower`.
fn count_hits(lower: &Vec<char>, kws: &Vec<&str>) -> (n: usize)
    ensures
        n == keyword_hits(lower@, str_views(kws@)),
{
    let mut n: usize = 0;
    let mut i: usize = 0;
    while i < kws.len()
        invariant
            i <= kws@.len(),
            n <= i,
            n == keyword_hits(lower@, str_views(kws@).take(i as int)),
        decreases kws.len() - i,
    {
        let kw = chars_of(kws[i]);
        assert(str_views(kws@).take(i + 1).drop_last() =~= str_views(kws@).take(i as int));
        if contains_chars(lower, &kw) {
            n = n + 1;
        }
        i = i + 1;
    }
    assert(str_views(kws@).take(i as int) =~= str_views(kws@));
    n
}

/// Classifies an already lowercased text to the chapter whose keywords it
/// mentions most; ties go to the earlier chapter, and a text that mentions
/// no keyword goes to `AFM-CH01`.
pub fn classify_lowercase_text(lower_text: &str, chapters: &[ChapterInfo]) -> (code: String)
    ensures
        code@ == classify_upto(lower_text@, codes(chapters@), chapters@.len() as int).0,
{
    let lower = chars_of(lower_text);
    let mut best_code = String::from_str("AFM-CH01");
    let mut max_count: usize = 0;
    let mut i: usize = 0;
    while i < chapters.len()
        invariant
            i <= chapters@.len(),
            lower@ == lower_text@,
            (best_code@, max_count as nat) == classify_upto(lower@, codes(chapters@), i as int),
        decreases chapters.len() - i,
    {
        let kws = keywords_for(chapters[i].code.as_str());
        let hits = count_hits(&lower, &kws);
        assert(codes(chapters@)[i as int] == chapters@[i as int].code@);
        if hits > max_count {
            max_count = hits;
            best_code = chapters[i].code.clone();
        }
        i = i + 1;
    }
    best_code
}

/// Classifies a text to the chapter whose keywords it mentions most once
/// lowercased; ties go to the earlier chapter, and a text that mentions no
/// keyword goes to `AFM-CH01`.
pub fn classify_by_keywords(text: &str, chapters: &[ChapterInfo]) -> (code: String)
    ensures
        code@ == classify_upto(lowercase(text@), codes(chapters@), chapters@.len() as int).0,
{
    let lower_text = to_lowercase(text);
    classify_lowercase_text(lower_text.as_str(), chapters)
}

/// The keyword classification picks a chapter with the most hits: no
/// chapter has more, and when some chapter has a hit the result is the
/// first chapter with the largest count; otherwise it is `AFM-CH01`.
pub proof fn lemma_classify_best(lower: Seq<char>, codes: Seq<Seq<char>>, n: int)
    requires
        0 <= n <= codes.len(),
    ensures
        forall|i: int|
            0 <= i < n ==> keyword_hits(lower, chapter_keywords(#[trigger] codes[i])) <= classify_upto(
                lower,
                codes,
                n,
            ).1,
        classify_upto(lower, codes, n).1 == 0 ==> classify_upto(lower, codes, n).0 == "AFM-CH01"@,
        classify_upto(lower, codes, n).1 > 0 ==> exists|i: int|
            0 <= i < n && codes[i] == classify_upto(lower, codes, n).0 && keyword_hits(
                lower,
                chapter_keywords(codes[i]),
            ) == classify_upto(lower, codes, n).1 && forall|j: int|
                0 <= j < i ==> keyword_hits(lower, chapter_keywords(#[trigger] codes[j]))
                    < classify_upto(lower, codes, n).1,
    decreases n,
{
    if n > 0 {
        lemma_classify_best(lower, codes, n - 1);
        let (best, max) = classify_upto(lower, codes, n - 1);
        let h = keyword_hits(lower, chapter_keywords(codes[n - 1]));
        if h > max {
            assert forall|j: int| 0 <= j < n - 1 implies keyword_hits(
                lower,
                chapter_keywords(#[trigger] codes[j]),
            ) < h by {}
        }
    }
}

/// Options of the first fallback question.
pub open spec fn mock_options_1() -> Seq<Seq<char>> {
    seq![
        "Option A: Implement immediate hedging to secure foreign currency flows."@,
        "Option B: Re-evaluate the cost of capital using adjusted beta coefficients."@,
        "Option C: Propose a dynamic securitization pool with a structured SPV."@,
        "Option D: Shift funding strategies toward debt-free bootstrapping."@,
    ]
}

/// Options of the second fallback question.
pub open spec fn mock_options_2() -> Seq<Seq<char>> {
    seq![
        "Option A: Execute a share swap ratio based on free cash flows."@,
        "Option B: Perform a value-at-risk (VaR) mapping of all foreign assets."@,
        "Option C: Initiate structured portfolio diversification."@,
        "Option D: Leverage startup finance funding models."@,
    ]
}

fn owned_list(items: Vec<&str>) -> (v: Vec<String>)
    ensures
        owned_views(v@) == str_views(items@),
{
    let mut v: Vec<String> = Vec::new();
    let mut i: usize = 0;
    while i < items.len()
        invariant
            i <= items@.len(),
            owned_views(v@) == str_views(items@).take(i as int),
        decreases items.len() - i,
    {
        let x = String::from_str(items[i]);
        assert(x@ == str_views(items@)[i as int]);
        let ghost before = owned_views(v@);
        v.push(x);
        assert(owned_views(v@) =~= before.push(x@));
        assert(str_views(items@).take(i + 1) =~= str_views(items@).take(i as int).push(x@));
        i = i + 1;
    }
    assert(str_views(items@).take(i as int) =~= str_views(items@));
    v
}

/// The two questions generated without the model for a chunk classified to
/// `chapter_code` (when the model cannot be reached): both `Hard`, with the
/// chapter code named in the scenario.
pub fn mock_questions(chapter_code: &str) -> (qs: Vec<GeminiQuestion>)
    ensures
        qs@.len() == 2,
        qs@[0].difficulty@ == "Hard"@,
        qs@[0].scenario@ == "Evaluating strategic financial parameters under "@ + chapter_code@
            + " requirements: a CA Final scenario analyzing investment payoffs and discount volatility."@,
        owned_views(qs@[0].options@) == mock_options_1(),
        qs@[0].correct_option@ == mock_options_1()[1],
        qs@[0].explanation@
            == "Re-evaluating cost of capital using beta provides a robust framework under standard corporate governance models."@,
        qs@[1].difficulty@ == "Hard"@,
        qs@[1].scenario@ == "A corporate entity assesses risk exposures related to "@ + chapter_code@
            + ". Review calculations of portfolio returns and asset correlation."@,
        owned_views(qs@[1].options@) == mock_options_2(),
        qs@[1].correct_option@ == mock_options_2()[0],
        qs@[1].explanation@
            == "Share swap ratios based on free cash flows yield maximum synergy value for shareholders during mergers."@,
{
    let o1 = vec![
        "Option A: Implement immediate hedging to secure foreign currency flows.",
        "Option B: Re-evaluate the cost of capital using adjusted beta coefficients.",
        "Option C: Propose a dynamic securitization pool with a structured SPV.",
        "Option D: Shift funding strategies toward debt-free bootstrapping.",
    ];
    assert(str_views(o1@) =~= mock_options_1());
    let q1 = GeminiQuestion {
        difficulty: String::from_str("Hard"),
        scenario: concat3(
            "Evaluating strategic financial parameters under ",
            chapter_code,
            " requirements: a CA Final scenario analyzing investment payoffs and discount volatility.",
        ),
        options: owned_list(o1),
        correct_option: String::from_str(
            "Option B: Re-evaluate the cost of capital using adjusted beta coefficients.",
        ),
        explanation: String::from_str(
            "Re-evaluating cost of capital using beta provides a robust framework under standard corporate governance models.",
        ),
    };
    let o2 = vec![
        "Option A: Execute a share swap ratio based on free cash flows.",
        "Option B: Perform a value-at-risk (VaR) mapping of all foreign assets.",
        "Option C: Initiate structured portfolio diversification.",
        "Option D: Leverage startup finance funding models.",
    ];
    assert(str_views(o2@) =~= mock_options_2());
    let q2 = GeminiQuestion {
        difficulty: String::from_str("Hard"),
        scenario: concat3(
            "A corporate entity assesses risk exposures related to ",
            chapter_code,
            ". Review calculations of portfolio returns and asset correlation.",
        ),
        options: owned_list(o2),
        correct_option: String::from_str(
            "Option A: Execute a share swap ratio based on free cash flows.",
        ),
        explanation: String::from_str(
            "Share swap ratios based on free cash flows yield maximum synergy value for shareholders during mergers.",
        ),
    };
    vec![q1, q2]
}

/// The position of the first chapter with id `id` among the first `n`.
pub open spec fn first_with_id(chapters: Seq<ChapterInfo>, id: Seq<char>, i: int) -> bool {
    0 <= i < chapters.len() && chapters[i].id@ == id && forall|j: int|
        0 <= j < i ==> chapters[j].id@ != id
}

/// The position of the first chapter with code `code`.
pub open spec fn first_with_code(chapters: Seq<ChapterInfo>, code: Seq<char>, i: int) -> bool {
    0 <= i < chapters.len() && chapters[i].code@ == code && forall|j: int|
        0 <= j < i ==> chapters[j].code@ != code
}

/// The first chapter with id `id`, if any.
pub fn find_chapter_by_id(chapters: &Vec<ChapterInfo>, id: &str) -> (r: Option<ChapterInfo>)
    ensures
        r is None <==> forall|j: int| 0 <= j < chapters@.len() ==> chapters@[j].id@ != id@,
        r matches Some(c) ==> exists|i: int| first_with_id(chapters@, id@, i) && c == chapters@[i],
{
    let mut i: usize = 0;
    while i < chapters.len()
        invariant
            i <= chapters@.len(),
            forall|j: int| 0 <= j < i ==> chapters@[j].id@ != id@,
        decreases chapters.len() - i,
    {
        if str_eq(chapters[i].id.as_str(), id) {
            assert(first_with_id(chapters@, id@, i as int));
            return Some(copy_chapter(&chapters[i]));
        }
        i = i + 1;
    }
    None
}

/// The first chapter with code `code`, if any.
pub fn find_chapter_by_code(chapters: &Vec<ChapterInfo>, code: &str) -> (r: Option<ChapterInfo>)
    ensures
        r is None <==> forall|j: int| 0 <= j < chapters@.len() ==> chapters@[j].code@ != code@,
        r matches Some(c) ==> exists|i: int| first_with_code(chapters@, code@, i) && c == chapters@[i],
{
    let mut i: usize = 0;
    while i < chapters.len()
        invariant
            i <= chapters@.len(),
            forall|j: int| 0 <= j < i ==> chapters@[j].code@ != code@,
        decreases chapters.len() - i,
    {
        if str_eq(chapters[i].code.as_str(), code) {
            assert(first_with_code(chapters@, code@, i as int));
            return Some(copy_chapter(&chapters[i]));
        }
        i = i + 1;
    }
    None
}

/// The chapter an upload pins its chunks to: for a `TARGETED` upload with a
/// chapter id, the first chapter with that id; otherwise none.
pub fn preselected_chapter(
    upload_type: &str,
    targeted_chapter_id: Option<&str>,
    chapters: &Vec<ChapterInfo>,
) -> (r: Option<ChapterInfo>)
    ensures
        upload_type@ != "TARGETED"@ ==> r is None,
        targeted_chapter_id is None ==> r is None,
        upload_type@ == "TARGETED"@ && targeted_chapter_id is Some ==> ({
            let id = targeted_chapter_id->0@;
            &&& r is None <==> forall|j: int| 0 <= j < chapters@.len() ==> chapters@[j].id@ != id
            &&& r matches Some(c) ==> exists|i: int| first_with_id(chapters@, id, i) && c == chapters@[i]
        }),
{
    if str_eq(upload_type, "TARGETED") {
        match targeted_chapter_id {
            Some(id) => find_chapter_by_id(chapters, id),
            None => None,
        }
    } else {
        None
    }
}

/// The chapter code used when the model cannot classify a chunk: the
/// pinned chapter's code, else the keyword classification of the chunk.
pub fn fallback_chapter_code(
    chunk_text: &str,
    pre_selected: &Option<ChapterInfo>,
    chapters: &Vec<ChapterInfo>,
) -> (code: String)
    ensures
        match pre_selected {
            Some(c) => code@ == c.code@,
            None => code@ == classify_upto(
                lowercase(chunk_text@),
                codes(chapters@),
                chapters@.len() as int,
            ).0,
        },
{
    match pre_selected {
        Some(c) => c.code.clone(),
        None => classify_by_keywords(chunk_text, chapters.as_slice()),
    }
}

/// The chapter a chunk is mapped to: the first chapter with the code the
/// classification returned, else the pinned chapter, else the first
/// chapter; none only when there are no chapters and nothing is pinned.
pub fn resolve_chunk_chapter(
    chapters: &Vec<ChapterInfo>,
    classified_code: &str,
    pre_selected: &Option<ChapterInfo>,
) -> (r: Option<ChapterInfo>)
    ensures
        (exists|i: int| 0 <= i < chapters@.len() && chapters@[i].code@ == classified_code@) ==> (
        r matches Some(c) && exists|i: int| first_with_code(chapters@, classified_code@, i) && c
            == chapters@[i]),
        (forall|j: int| 0 <= j < chapters@.len() ==> chapters@[j].code@ != classified_code@) ==> (
        match pre_selected {
            Some(p) => r == Some(*p),
            None => if chapters@.len() > 0 {
                r == Some(chapters@[0])
            } else {
                r is None
            },
        }),
{
    match find_chapter_by_code(chapters, classified_code) {
        Some(c) => Some(c),
        None => match pre_selected {
            Some(p) => Some(copy_chapter(p)),
            None => if chapters.len() > 0 {
                Some(copy_chapter(&chapters[0]))
            } else {
                None
            },
        },
    }
}

/// The prompt that asks the model to classify a chunk and write questions
/// on it; for a pinned chapter it adds a note that fixes the code.
pub fn build_classification_prompt(chunk_text: &str, target: &Option<ChapterInfo>) -> (p: String)
    ensures
        p@ == CLASSIFY_INSTRUCTIONS@ + CLASSIFY_CHUNK_OPEN@ + chunk_text@ + CLASSIFY_CHUNK_CLOSE@
            + match target {
            Some(c) => CLASSIFY_HINT_OPEN@ + c.code@ + CLASSIFY_HINT_MIDDLE@ + c.name@
                + CLASSIFY_HINT_CLOSE@,
            None => Seq::<char>::empty(),
        },
{
    let mut p = String::from_str(CLASSIFY_INSTRUCTIONS);
    p.append(CLASSIFY_CHUNK_OPEN);
    p.append(chunk_text);
    p.append(CLASSIFY_CHUNK_CLOSE);
    match target {
        Some(c) => {
            p.append(CLASSIFY_HINT_OPEN);
            p.append(c.code.as_str());
            p.append(CLASSIFY_HINT_MIDDLE);
            p.append(c.name.as_str());
            p.append(CLASSIFY_HINT_CLOSE);
        },
        None => {
            assert(p@ =~= p@ + Seq::<char>::empty());
        },
    }
    p
}

/// Whether an upload is a PDF: its file name, lowercased, ends in `.pdf`.
pub fn is_pdf_file_name(file_name: &str) -> (b: bool)
    ensures
        b == has_suffix(lowercase(file_name@), ".pdf"@),
{
    let lower = to_lowercase(file_name);
    ends_with(lower.as_str(), ".pdf")
}

/// The text that `String::from_utf8_lossy` reads from `bytes`: the bytes
/// decoded as UTF-8, each invalid sequence replaced by U+FFFD.
pub uninterp spec fn utf8_lossy(bytes: Seq<u8>) -> Seq<char>;

/// `String::from_utf8_lossy(bytes).into_owned()`. Its result is named
/// [`utf8_lossy`]; bytes that are valid UTF-8 come back unchanged, so bytes
/// that are all ASCII give one character per byte. What replaces invalid
/// sequences is left to the name.
#[verifier::external_body]
fn decode_utf8_lossy(bytes: &[u8]) -> (r: String)
    ensures
        r@ == utf8_lossy(bytes@),
        (forall|k: int| 0 <= k < bytes@.len() ==> #[trigger] bytes@[k] < 128) ==> r@.len()
            == bytes@.len() && forall|k: int| 0 <= k < bytes@.len() ==> #[trigger] r@[k] as u32
            == bytes@[k] as u32,
{
    String::from_utf8_lossy(bytes).into_owned()
}

/// The text of an upload that is not a PDF: its bytes read as UTF-8, with
/// invalid sequences replaced.
pub fn plain_upload_text(data: &[u8]) -> (text: String)
    ensures
        text@ == utf8_lossy(data@),
        (forall|k: int| 0 <= k < data@.len() ==> #[trigger] data@[k] < 128) ==> text@.len()
            == data@.len() && forall|k: int| 0 <= k < data@.len() ==> #[trigger] text@[k] as u32
            == data@[k] as u32,
{
    decode_utf8_lossy(data)
}

/// Refuses an upload without file content (400).
pub fn check_upload_file(file_len: usize) -> (r: Result<(), ApiError>)
    ensures
        r is Ok <==> file_len > 0,
        r matches Err(e) ==> e.status == BAD_REQUEST && e.message@ == "File is empty or missing"@,
{
    if file_len == 0 {
        Err(api_error(BAD_REQUEST, String::from_str("File is empty or missing")))
    } else {
        Ok(())
    }
}

/// The chunks of an uploaded document's text, each with its word count:
/// consecutive runs of [`CHUNK_WORDS`] words (the last may be shorter),
/// joined by single spaces. A text without words is refused with 400.
pub fn document_chunks(text: &str) -> (r: Result<Vec<(String, usize)>, ApiError>)
    ensures
        match r {
            Ok(v) => words(text@).len() > 0 && v@.len() == windows(words(text@), CHUNK_WORDS as nat, 0).len()
                && forall|i: int|
                0 <= i < v@.len() ==> (#[trigger] v@[i]).0@ == window_texts(
                    windows(words(text@), CHUNK_WORDS as nat, 0),
                )[i] && v@[i].1 == windows(words(text@), CHUNK_WORDS as nat, 0)[i].len(),
            Err(e) => words(text@).len() == 0 && e.status == BAD_REQUEST && e.message@
                == "No readable text content found"@,
        },
{
    if word_count(text) == 0 {
        return Err(api_error(BAD_REQUEST, String::from_str("No readable text content found")));
    }
    let chunks = sliding_window_chunks(text, CHUNK_WORDS, 0);
    let ghost wins = windows(words(text@), CHUNK_WORDS as nat, 0);
    proof {
        lemma_chunk_word_counts(text@, CHUNK_WORDS as nat, 0);
    }
    let mut out: Vec<(String, usize)> = Vec::new();
    let mut i: usize = 0;
    while i < chunks.len()
        invariant
            i <= chunks@.len(),
            string_views(chunks@) == window_texts(wins),
            wins == windows(words(text@), CHUNK_WORDS as nat, 0),
            out@.len() == i,
            forall|k: int|
                0 <= k < i ==> (#[trigger] out@[k]).0@ == window_texts(wins)[k] && out@[k].1
                    == wins[k].len(),
            forall|k: int|
                0 <= k < window_texts(wins).len() ==> words(#[trigger] window_texts(wins)[k])
                    == wins[k],
        decreases chunks.len() - i,
    {
        assert(chunks@[i as int]@ == window_texts(wins)[i as int]);
        let n = word_count(chunks[i].as_str());
        out.push((chunks[i].clone(), n));
        i = i + 1;
    }
    Ok(out)
}

/// The list of strings that a JSON text denotes, as
/// `serde_json::from_str::<Vec<String>>` reads it; `None` when it reads
/// none.
pub uninterp spec fn json_string_list(text: Seq<char>) -> Option<Seq<Seq<char>>>;

/// The JSON text that `serde_json::to_string` writes for a list of strings.
pub uninterp spec fn json_text_of_strings(items: Seq<Seq<char>>) -> Seq<char>;

/// `serde_json::from_str::<Vec<String>>`, with its error dropped. The
/// outcome is named [`json_string_list`].
#[verifier::external_body]
fn parse_string_list(text: &str) -> (r: Option<Vec<String>>)
    ensures
        r is Some <==> json_string_list(text@) is Some,
        r matches Some(v) ==> owned_views(v@) == json_string_list(text@)->0,
{
    serde_json::from_str::<Vec<String>>(text).ok()
}

/// `serde_json::to_string` of a list of strings. Serialising strings
/// cannot fail (they hold no map with non-string keys), so the result is
/// the text named [`json_text_of_strings`]; and `serde_json::from_str`
/// reads that text back as the same list (strings are written with every
/// character escaped as the reader unescapes it).
#[verifier::external_body]
fn write_string_list(items: &Vec<String>) -> (r: String)
    ensures
        r@ == json_text_of_strings(owned_views(items@)),
        json_string_list(r@) == Some(owned_views(items@)),
{
    serde_json::to_string(items).unwrap_or_else(|_| "[]".to_string())
}

/// The JSON text under which a question's options are stored; it reads
/// back as the same options.
pub fn options_json(options: &Vec<String>) -> (r: String)
    ensures
        r@ == json_text_of_strings(owned_views(options@)),
        json_string_list(r@) == Some(owned_views(options@)),
{
    write_string_list(options)
}

/// A stored question as it is served: its options are read from their
/// JSON text, and options that do not read as a list of strings are served
/// as none.
pub fn question_from_row(
    id: String,
    chapter_id: String,
    difficulty: String,
    scenario: String,
    options_json: &str,
    correct_option: String,
    explanation: String,
) -> (q: QuestionResponse)
    ensures
        q.id == id,
        q.chapter_id == chapter_id,
        q.difficulty == difficulty,
        q.scenario == scenario,
        owned_views(q.options@) == match json_string_list(options_json@) {
            Some(v) => v,
            None => Seq::<Seq<char>>::empty(),
        },
        q.correct_option == correct_option,
        q.explanation == explanation,
{
    let options = match parse_string_list(options_json) {
        Some(v) => v,
        None => {
            let v: Vec<String> = Vec::new();
            assert(owned_views(v@) =~= Seq::<Seq<char>>::empty());
            v
        },
    };
    QuestionResponse { id, chapter_id, difficulty, scenario, options, correct_option, explanation }
}

} // verus!
