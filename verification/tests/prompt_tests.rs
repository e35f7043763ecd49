use capadvisors_backend::prompts::{
    build_improvise_prompt, build_prompt, build_refine_prompt, gap_analysis_prompt,
};

#[test]
fn map_prompt_frames_the_whole_document() {
    let p = build_prompt("AFM-CH09", "Derivatives Analysis and Valuation", "Black-Scholes text");
    assert!(p.starts_with(
        "You are an expert ICAI CA Final Advanced Financial Management (AFM) examiner and curriculum auditor specialising in AFM-CH09: Derivatives Analysis and Valuation.\n\nYou are given the COMPLETE"
    ));
    assert!(p.ends_with("DOCUMENT TEXT (analyse in full):\n\"\"\"\nBlack-Scholes text\n\"\"\""));
    assert!(p.contains("MUST contain EXACTLY 3 items:\n- Variant 1 (NUMERICAL_SHIFT)"));
}

#[test]
fn improvise_prompt_with_and_without_guidance() {
    let p = build_improvise_prompt("Q?", "{\"total_marks\":20}", "[]", Some("  use INR  "));
    assert!(p.contains(
        "schema.\n\nADMIN GUIDANCE (apply precisely \u{2014} this is a directed change):\n\"use INR\"\n\nCURRENT QUESTION:\n\"\"\"\nQ?\n\"\"\"\n\nCURRENT SCORING RUBRIC (JSON):\n{\"total_marks\":20}\n\nCURRENT DIAGNOSTIC VARIANTS (JSON):\n[]\n\nReturn the complete"
    ));
    let blank = build_improvise_prompt("Q?", "{}", "[]", Some("   "));
    let none = build_improvise_prompt("Q?", "{}", "[]", None);
    assert_eq!(blank, none);
    assert!(none.contains(
        "ADMIN GUIDANCE: None provided. Auto-polish only \u{2014} fix grammar, clean mathematical notation, improve narrative clarity. Do NOT alter any numbers or formula structure.\n\nCURRENT QUESTION:"
    ));
}

#[test]
fn refine_prompt_starts_with_the_guidance() {
    let p = build_refine_prompt("Q", "{}", Some("LaTeX please"));
    assert!(p.starts_with(
        "ADMIN GUIDANCE (apply precisely \u{2014} this is a directed refinement):\n\"LaTeX please\"\n\nQUESTION TEXT (read-only"
    ));
    assert!(p.ends_with("`step`, `description`, and `marks` field."));
    let q = build_refine_prompt("Q", "{}", None);
    assert!(q.starts_with("ADMIN GUIDANCE: None provided. Auto-polish only \u{2014} improve LaTeX formula notation"));
}

#[test]
fn gap_prompt_joins_the_excerpts() {
    let p = gap_analysis_prompt("Mutual Funds", &vec!["one".to_string(), "two".to_string()]);
    assert_eq!(
        p,
        "Target chapter: Mutual Funds\n\nRetrieved study material:\n\"\"\"\none\n\n---\n\ntwo\n\"\"\"\n\nAnalyse the coverage and return the JSON gap analysis."
    );
}
