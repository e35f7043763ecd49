//! The prompts sent to the language models, assembled from fixed text and
//! the caller's material.
use vstd::prelude::*;
use crate::strings::{join, trim, trimmed};

verus! {

/// Opening of the map-analysis prompt, before the chapter code.
pub const MAP_PROMPT_INTRO: &'static str = "You are an expert ICAI CA Final Advanced Financial Management (AFM) examiner \
         and curriculum auditor specialising in ";

/// Map-analysis instructions, between the chapter name and the document.
pub const MAP_PROMPT_INSTRUCTIONS: &'static str = ".\n\n\
         You are given the COMPLETE, UNTRUNCATED text of a student's study document. \
         Analyse every section in full — do not skip, summarise, or omit any portion.\n\
         Pay particular attention to:\n\
         • Mathematical formulae and their derivations (Black-Scholes, CAPM, APV, \
           Forex hedging, Securitization waterfalls, IRR/MIRR chains)\n\
         • Step-by-step numerical examples and their intermediate calculations\n\
         • Definitions, conditions, and edge-case caveats stated in the text\n\n\
         Based on your analysis, return a single JSON object matching the required schema.\n\
         The `alternate_diagnostic_variants` array MUST contain EXACTLY 3 items:\n\
         - Variant 1 (NUMERICAL_SHIFT): change a key input value to test compounding/rounding\n\
         - Variant 2 (STRATEGIC_REVERSE): invert the strategic objective or direction\n\
         - Variant 3 (EDGE_CASE_LIMIT): probe a boundary condition or rule exception\n\n\
         DOCUMENT TEXT (analyse in full):\n\
         \"\"\"\n\
         ";

/// Closing of the map-analysis prompt, after the document.
pub const MAP_PROMPT_CLOSE: &'static str = "\n\
         \"\"\"";

/// Heading of the admin guidance when improvising a question.
pub const IMPROVISE_GUIDANCE_OPEN: &'static str = "ADMIN GUIDANCE (apply precisely — this is a directed change):\n\"";

/// Closing quote of an admin guidance section.
pub const GUIDANCE_CLOSE: &'static str = "\"\n\n";

/// Guidance section of an improvise prompt when no guidance is given.
pub const IMPROVISE_NO_GUIDANCE: &'static str = "ADMIN GUIDANCE: None provided. Auto-polish only — fix grammar, \
              clean mathematical notation, improve narrative clarity. \
              Do NOT alter any numbers or formula structure.\n\n";

/// Opening of the improvise prompt, before the guidance section.
pub const IMPROVISE_INTRO: &'static str = "You are an expert ICAI exam designer and CA Final AFM question specialist.\n\n\
         You are given an EXISTING high-stakes case question, its step-by-step grading \
         rubric, and its three diagnostic variants. Your sole task is to polish and refine \
         them according to the admin guidance below.\n\n\
         CONSTRAINTS (non-negotiable):\n\
         • You MUST maintain all original numerical values and formula logic unless the \
           admin guidance explicitly instructs you to change a specific value.\n\
         • Do NOT restructure the problem type or invent new question components.\n\
         • All three diagnostic variants must be preserved and improved in-place.\n\
         • The output JSON MUST rigidly match the required GeminiMapResult schema.\n\n\
         ";

/// Heading of the current question in the improvise prompt.
pub const IMPROVISE_QUESTION_OPEN: &'static str = "\
         CURRENT QUESTION:\n\
         \"\"\"\n";

/// Heading of the current rubric in the improvise prompt.
pub const IMPROVISE_RUBRIC_HEAD: &'static str = "\n\"\"\"\n\n\
         CURRENT SCORING RUBRIC (JSON):\n\
         ";

/// Heading of the current variants in the improvise prompt.
pub const IMPROVISE_VARIANTS_HEAD: &'static str = "\n\n\
         CURRENT DIAGNOSTIC VARIANTS (JSON):\n\
         ";

/// Closing instructions of the improvise prompt.
pub const IMPROVISE_CLOSING: &'static str = "\n\n\
         Return the complete refined question set as a single JSON object. \
         Set coverage_metric to reflect the polished question's curriculum depth (0-100). \
         List the key mathematical verification steps in computational_checks.";

/// Heading of the admin guidance when refining a rubric.
pub const REFINE_GUIDANCE_OPEN: &'static str = "ADMIN GUIDANCE (apply precisely — this is a directed refinement):\n\
             \"";

/// Guidance section of a refine prompt when no guidance is given.
pub const REFINE_NO_GUIDANCE: &'static str = "ADMIN GUIDANCE: None provided. Auto-polish only — improve LaTeX formula \
              notation, fix intermediate rounding inconsistencies, and clarify step \
              descriptions for examiner readability. Do NOT alter mark allocations or \
              restructure the rubric steps.\n\n";

/// Heading of the read-only question in the refine prompt.
pub const REFINE_QUESTION_OPEN: &'static str = "\
         QUESTION TEXT (read-only — do NOT reproduce or modify this):\n\
         \"\"\"\n";

/// Heading of the current rubric in the refine prompt.
pub const REFINE_RUBRIC_HEAD: &'static str = "\n\"\"\"\n\n\
         CURRENT SCORING RUBRIC (JSON — refine this and return the improved version):\n\
         ";

/// Closing constraints of the refine prompt.
pub const REFINE_CLOSING: &'static str = "\n\n\
         Return only the refined ScoringRubric as a JSON object. \
         Constraints:\n\
         • total_marks MUST remain unchanged unless the admin guidance explicitly \
           instructs a mark reallocation.\n\
         • The sum of all step marks must equal total_marks within ±0.5 tolerance.\n\
         • Step numbers must remain sequential starting from 1.\n\
         • Every step must retain a `step`, `description`, and `marks` field.";

/// Instructions that open the chunk classification prompt.
pub const CLASSIFY_INSTRUCTIONS: &'static str = "You are an expert tutor for the ICAI CA Final Advanced Financial Management (AFM) Paper-2.
Classify the study text to its AFM-CHxx code. The chapters are:
- AFM-CH01: Financial Policy and Corporate Strategy
- AFM-CH02: Risk Management
- AFM-CH03: Advanced Capital Budgeting Decisions
- AFM-CH04: Security Analysis
- AFM-CH05: Security Valuation
- AFM-CH06: Portfolio Management
- AFM-CH07: Securitization
- AFM-CH08: Mutual Funds
- AFM-CH09: Derivatives Analysis and Valuation
- AFM-CH10: Foreign Exchange Exposure and Risk Management
- AFM-CH11: International Financial Management
- AFM-CH12: Interest Rate Risk Management
- AFM-CH13: Business Valuation
- AFM-CH14: Mergers, Acquisitions and Corporate Restructuring
- AFM-CH15: Startup Finance

Generate exactly 4 to 5 multiple-choice questions matching CA Final difficulty based strictly on the text.";

/// Heading of the study material in the classification prompt.
pub const CLASSIFY_CHUNK_OPEN: &'static str = "\n\nStudy material chunk:\n\"\"\"\n";

/// Closing quotes of the study material in the classification prompt.
pub const CLASSIFY_CHUNK_CLOSE: &'static str = "\n\"\"\"";

/// Opening of the note that pins the chapter of a targeted upload.
pub const CLASSIFY_HINT_OPEN: &'static str = "\nNOTE: You MUST classify this text as code: \"";

/// Between the pinned chapter code and its name.
pub const CLASSIFY_HINT_MIDDLE: &'static str = "\" (";

/// Closing of the note that pins the chapter.
pub const CLASSIFY_HINT_CLOSE: &'static str = ")";

/// Separator between retrieved excerpts in the gap analysis.
pub const GAP_CONTEXT_SEPARATOR: &'static str = "\n\n---\n\n";

/// System message of the gap analysis.
pub const GAP_SYSTEM_PROMPT: &'static str = "\
You are an expert CA Final AFM (Advanced Financial Management) curriculum analyst. \
Given the name of a target chapter and retrieved excerpts from a student's uploaded \
study material, produce a JSON gap analysis. \
\n\nRespond ONLY with a single JSON object with these exact keys:\
\n  coverage_score  – float between 0 and 1 indicating overall syllabus coverage\
\n  gap_topics      – array of strings: topics in the chapter not covered by the material\
\n  compliant_topics – array of strings: topics adequately covered\
\n  recommendations – array of strings: specific study actions to close the gaps\
\n\nDo NOT wrap the JSON in markdown fences or add any prose outside the object.";

/// Opening of the gap analysis request, before the chapter name.
pub const GAP_USER_OPEN: &'static str = "Target chapter: ";

/// Heading of the retrieved material in the gap analysis request.
pub const GAP_USER_MATERIAL: &'static str = "\n\nRetrieved study material:\n\"\"\"\n";

/// Closing of the gap analysis request.
pub const GAP_USER_CLOSE: &'static str = "\n\"\"\"\n\n\
         Analyse the coverage and return the JSON gap analysis.";

/// The map-analysis prompt for a document of chapter `chapter_code`
/// (`chapter_name`): the whole document text, unsplit, inside the
/// instructions.
pub fn build_prompt(chapter_code: &str, chapter_name: &str, raw_text: &str) -> (p: String)
    ensures
        p@ == MAP_PROMPT_INTRO@ + chapter_code@ + ": "@ + chapter_name@ + MAP_PROMPT_INSTRUCTIONS@
            + raw_text@ + MAP_PROMPT_CLOSE@,
{
    let mut p = String::from_str(MAP_PROMPT_INTRO);
    p.append(chapter_code);
    p.append(": ");
    p.append(chapter_name);
    p.append(MAP_PROMPT_INSTRUCTIONS);
    p.append(raw_text);
    p.append(MAP_PROMPT_CLOSE);
    p
}

/// The view of an optional string.
pub open spec fn opt_view(g: Option<&str>) -> Option<Seq<char>> {
    match g {
        Some(s) => Some(s@),
        None => None,
    }
}

/// The admin guidance section of a prompt: the guidance, trimmed and quoted
/// under `open`, when there is some that is not blank; else `none`.
pub open spec fn guidance_section(g: Option<Seq<char>>, open: Seq<char>, none: Seq<char>) -> Seq<char> {
    match g {
        Some(x) => if trimmed(x).len() > 0 {
            open + trimmed(x) + GUIDANCE_CLOSE@
        } else {
            none
        },
        None => none,
    }
}

fn guidance(g: Option<&str>, open: &str, none: &str) -> (s: String)
    ensures
        s@ == guidance_section(opt_view(g), open@, none@),
{
    match g {
        Some(x) => {
            let t = trim(x);
            if t.as_str().is_empty() {
                String::from_str(none)
            } else {
                let mut s = String::from_str(open);
                s.append(t.as_str());
                s.append(GUIDANCE_CLOSE);
                s
            }
        },
        None => String::from_str(none),
    }
}

/// The prompt that asks for an existing staged question to be polished:
/// the question, its rubric and its variants as they stand, under the
/// admin guidance (or the auto-polish instruction when there is none).
pub fn build_improvise_prompt(
    current_question: &str,
    current_rubric_json: &str,
    current_variants_json: &str,
    admin_guidance: Option<&str>,
) -> (p: String)
    ensures
        p@ == IMPROVISE_INTRO@ + guidance_section(
            opt_view(admin_guidance),
            IMPROVISE_GUIDANCE_OPEN@,
            IMPROVISE_NO_GUIDANCE@,
        ) + IMPROVISE_QUESTION_OPEN@ + current_question@ + IMPROVISE_RUBRIC_HEAD@
            + current_rubric_json@ + IMPROVISE_VARIANTS_HEAD@ + current_variants_json@
            + IMPROVISE_CLOSING@,
{
    let section = guidance(admin_guidance, IMPROVISE_GUIDANCE_OPEN, IMPROVISE_NO_GUIDANCE);
    let mut p = String::from_str(IMPROVISE_INTRO);
    p.append(section.as_str());
    p.append(IMPROVISE_QUESTION_OPEN);
    p.append(current_question);
    p.append(IMPROVISE_RUBRIC_HEAD);
    p.append(current_rubric_json);
    p.append(IMPROVISE_VARIANTS_HEAD);
    p.append(current_variants_json);
    p.append(IMPROVISE_CLOSING);
    p
}

/// The prompt that asks for a staged question's rubric to be refined: the
/// guidance section, the question (read-only) and the current rubric.
pub fn build_refine_prompt(
    question_text: &str,
    current_rubric_json: &str,
    admin_guidance: Option<&str>,
) -> (p: String)
    ensures
        p@ == guidance_section(opt_view(admin_guidance), REFINE_GUIDANCE_OPEN@, REFINE_NO_GUIDANCE@)
            + REFINE_QUESTION_OPEN@ + question_text@ + REFINE_RUBRIC_HEAD@ + current_rubric_json@
            + REFINE_CLOSING@,
{
    let mut p = guidance(admin_guidance, REFINE_GUIDANCE_OPEN, REFINE_NO_GUIDANCE);
    p.append(REFINE_QUESTION_OPEN);
    p.append(question_text);
    p.append(REFINE_RUBRIC_HEAD);
    p.append(current_rubric_json);
    p.append(REFINE_CLOSING);
    p
}

/// The views of a list of strings.
pub open spec fn owned_views(v: Seq<String>) -> Seq<Seq<char>> {
    v.map_values(|s: String| s@)
}

/// The gap-analysis request for chapter `chapter_name`: the retrieved
/// excerpts, separated by [`GAP_CONTEXT_SEPARATOR`], inside the request.
pub fn gap_analysis_prompt(chapter_name: &str, retrieved_chunks: &Vec<String>) -> (p: String)
    ensures
        p@ == GAP_USER_OPEN@ + chapter_name@ + GAP_USER_MATERIAL@ + join(
            owned_views(retrieved_chunks@),
            GAP_CONTEXT_SEPARATOR@,
        ) + GAP_USER_CLOSE@,
{
    let mut context = String::new();
    let mut i: usize = 0;
    while i < retrieved_chunks.len()
        invariant
            i <= retrieved_chunks@.len(),
            context@ == join(owned_views(retrieved_chunks@).take(i as int), GAP_CONTEXT_SEPARATOR@),
        decreases retrieved_chunks.len() - i,
    {
        let ghost prev = owned_views(retrieved_chunks@).take(i as int);
        let ghost next = owned_views(retrieved_chunks@).take(i + 1);
        assert(next.drop_last() =~= prev);
        assert(next.last() == retrieved_chunks@[i as int]@);
        if i > 0 {
            context.append(GAP_CONTEXT_SEPARATOR);
        } else {
            assert(next =~= seq![retrieved_chunks@[i as int]@]);
        }
        context.append(retrieved_chunks[i].as_str());
        i = i + 1;
    }
    assert(owned_views(retrieved_chunks@).take(i as int) =~= owned_views(retrieved_chunks@));
    let mut p = String::from_str(GAP_USER_OPEN);
    p.append(chapter_name);
    p.append(GAP_USER_MATERIAL);
    p.append(context.as_str());
    p.append(GAP_USER_CLOSE);
    p
}

} // verus!
