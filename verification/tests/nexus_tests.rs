use capadvisors_backend::db::{afm_chapters, database_choice, remote_failure_status, DbChoice, RemoteStage};
use capadvisors_backend::map::{chapter_not_found, check_map_request, check_map_words};
use capadvisors_backend::analysis::check_variant_count;
use capadvisors_backend::nexus::{
    build_classification_prompt, check_upload_file, classify_by_keywords, classify_lowercase_text,
    document_chunks, plain_upload_text,
    fallback_chapter_code, is_pdf_file_name, mock_questions, options_json, preselected_chapter,
    question_from_row, resolve_chunk_chapter, ChapterInfo,
};

fn chapters() -> Vec<ChapterInfo> {
    afm_chapters()
        .into_iter()
        .enumerate()
        .map(|(i, (code, name))| ChapterInfo { id: format!("id{}", i + 1), code: code.into(), name: name.into() })
        .collect()
}

#[test]
fn keywords_pick_the_best_chapter() {
    let ch = chapters();
    assert_eq!(classify_by_keywords("The NPV and IRR of a project", &ch), "AFM-CH03");
    assert_eq!(classify_by_keywords("PORTFOLIO beta and CAPM", &ch), "AFM-CH06");
    assert_eq!(classify_by_keywords("nothing relevant here", &ch), "AFM-CH01");
    assert_eq!(classify_by_keywords("Merger synergy", &[]), "AFM-CH01");
}

#[test]
fn classification_of_text_already_lowercased() {
    let ch = chapters();
    assert_eq!(classify_lowercase_text("npv and irr and wacc", &ch), "AFM-CH03");
    // upper-case keywords are not found in text that was not lowercased
    assert_eq!(classify_lowercase_text("NPV AND IRR", &ch), "AFM-CH01");
    assert_eq!(classify_lowercase_text("", &ch), "AFM-CH01");
}

#[test]
fn ties_go_to_the_earlier_chapter() {
    let ch = chapters();
    // "valuation" (CH05) and "derivative" (CH09): one hit each
    assert_eq!(classify_by_keywords("valuation of a derivative", &ch), "AFM-CH05");
}

#[test]
fn mock_questions_name_the_chapter() {
    let qs = mock_questions("AFM-CH07");
    assert_eq!(qs.len(), 2);
    assert!(qs[0].scenario.contains("under AFM-CH07 requirements"));
    assert_eq!(qs[0].correct_option, qs[0].options[1]);
    assert_eq!(qs[1].correct_option, qs[1].options[0]);
    assert_eq!(qs[1].difficulty, "Hard");
}

#[test]
fn targeted_uploads_pin_their_chapter() {
    let ch = chapters();
    let p = preselected_chapter("TARGETED", Some("id4"), &ch).unwrap();
    assert_eq!(p.code, "AFM-CH04");
    assert!(preselected_chapter("BULK", Some("id4"), &ch).is_none());
    assert!(preselected_chapter("TARGETED", Some("nope"), &ch).is_none());
    assert_eq!(fallback_chapter_code("npv irr", &Some(p), &ch), "AFM-CH04");
    assert_eq!(fallback_chapter_code("npv irr", &None, &ch), "AFM-CH03");
}

#[test]
fn chunk_chapter_resolution_order() {
    let ch = chapters();
    assert_eq!(resolve_chunk_chapter(&ch, "AFM-CH12", &None).unwrap().id, "id12");
    let pinned = Some(ChapterInfo { id: "x".into(), code: "X".into(), name: "n".into() });
    assert_eq!(resolve_chunk_chapter(&ch, "AFM-CH99", &pinned).unwrap().id, "x");
    assert_eq!(resolve_chunk_chapter(&ch, "AFM-CH99", &None).unwrap().id, "id1");
    assert!(resolve_chunk_chapter(&vec![], "AFM-CH01", &None).is_none());
}

#[test]
fn classification_prompt_hint() {
    let ch = chapters();
    let p = build_classification_prompt("text", &Some(ch[1].clone()));
    assert!(p.ends_with(
        "Study material chunk:\n\"\"\"\ntext\n\"\"\"\nNOTE: You MUST classify this text as code: \"AFM-CH02\" (Risk Management)"
    ));
    let q = build_classification_prompt("text", &None);
    assert!(q.ends_with("\"\"\"\ntext\n\"\"\""));
    assert!(q.starts_with("You are an expert tutor for the ICAI CA Final"));
}

#[test]
fn pdf_names_are_case_insensitive() {
    assert!(is_pdf_file_name("Notes.PDF"));
    assert!(is_pdf_file_name("a.pdf"));
    assert!(!is_pdf_file_name("a.pdf.txt"));
    assert!(!is_pdf_file_name("pdf"));
}

#[test]
fn documents_split_into_nine_hundred_word_chunks() {
    let text: Vec<String> = (0..2000).map(|i| format!("w{}", i)).collect();
    let chunks = document_chunks(&text.join("  ")).unwrap();
    let counts: Vec<usize> = chunks.iter().map(|c| c.1).collect();
    assert_eq!(counts, vec![900, 900, 200]);
    assert!(chunks[1].0.starts_with("w900 w901"));
    let e = document_chunks(" \n ").err().unwrap();
    assert_eq!((e.status, e.message.as_str()), (400, "No readable text content found"));
    assert!(check_upload_file(0).is_err());
    assert!(check_upload_file(1).is_ok());
}

#[test]
fn question_options_round_trip_through_json() {
    let opts = vec!["Option A: \"x\"".to_string(), "Option B".to_string()];
    let text = options_json(&opts);
    assert_eq!(text, "[\"Option A: \\\"x\\\"\",\"Option B\"]");
    let q = question_from_row("i".into(), "c".into(), "Hard".into(), "s".into(), &text, "o".into(), "e".into());
    assert_eq!(q.options, opts);
    let q = question_from_row("i".into(), "c".into(), "Hard".into(), "s".into(), "not json", "o".into(), "e".into());
    assert!(q.options.is_empty());
}

#[test]
fn map_request_checks() {
    assert_eq!(check_map_request("", 10).unwrap_err().message, "chapter_id field is required");
    assert_eq!(check_map_request("c", 0).unwrap_err().message, "file field is missing or empty");
    assert!(check_map_request("c", 1).is_ok());
    let e = check_map_words("only a few words").unwrap_err();
    assert_eq!((e.status, e.message.as_str()), (422, "Document contains only 4 words \u{2014} minimum 50 required for analysis"));
    let long: Vec<&str> = std::iter::repeat("w").take(50).collect();
    assert_eq!(check_map_words(&long.join(" ")).unwrap(), 50);
    assert_eq!(chapter_not_found("c9").message, "Chapter 'c9' not found in the database");
}

#[test]
fn database_choice_and_statuses() {
    assert!(matches!(database_choice(Some("LIBSQL://db.turso.io"), Some("t")), DbChoice::Remote));
    match database_choice(Some("https://db"), Some("t")) {
        DbChoice::Local { status } => assert!(status.starts_with("TURSO_DATABASE_URL must start with libsql://")),
        _ => panic!("expected local"),
    }
    match database_choice(Some("libsql://db"), None) {
        DbChoice::Local { status } => assert!(status.contains("are not set")),
        _ => panic!("expected local"),
    }
    assert_eq!(
        remote_failure_status(RemoteStage::Query, "boom"),
        "Failed to query remote Turso db: boom. Falling back to local SQLite."
    );
    assert_eq!(afm_chapters().len(), 15);
}

#[test]
fn variant_count_limit() {
    assert!(check_variant_count(3).is_ok());
    assert_eq!(
        check_variant_count(4).unwrap_err(),
        "Expected at most 3 diagnostic variants, Gemini returned 4"
    );
}

#[test]
fn plain_uploads_are_read_as_utf8() {
    assert_eq!(plain_upload_text(b"npv and irr"), "npv and irr");
    assert_eq!(plain_upload_text("caf\u{e9}".as_bytes()), "caf\u{e9}");
    assert_eq!(plain_upload_text(&[b'a', 0xFF, b'b']), "a\u{FFFD}b");
}
