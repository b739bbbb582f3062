use webrecon::probe::{classify_folded, classify_response, has_capture_extension, render_lines, ProbeOutcome};

#[test]
fn non_success_status_is_not_saved() {
    assert_eq!(classify_response(404, "text/html"), ProbeOutcome::BadStatus);
    assert_eq!(classify_response(199, "text/html"), ProbeOutcome::BadStatus);
    assert_eq!(classify_response(300, "text/html"), ProbeOutcome::BadStatus);
}

#[test]
fn html_content_type_is_case_insensitive() {
    assert_eq!(classify_response(200, "Text/HTML; charset=utf-8"), ProbeOutcome::SaveHtml);
    assert_eq!(classify_response(299, "text/html"), ProbeOutcome::SaveHtml);
}

#[test]
fn other_content_types_are_reported_only() {
    assert_eq!(classify_response(200, "application/json"), ProbeOutcome::NonHtml);
    assert_eq!(classify_response(200, ""), ProbeOutcome::NonHtml);
    assert_eq!(classify_folded(200, "TEXT/HTML"), ProbeOutcome::NonHtml);
}

#[test]
fn summary_text_one_item_per_line() {
    assert_eq!(render_lines(&vec!["a".to_string(), "b".to_string()]), "a\nb\n");
    assert_eq!(render_lines(&vec![]), "");
}

#[test]
fn capture_extensions() {
    assert!(has_capture_extension("a.com_root_data.txt"));
    assert!(has_capture_extension("page.html"));
    assert!(has_capture_extension("x.tar.htm"));
    assert!(!has_capture_extension(".txt"));
    assert!(!has_capture_extension("robots"));
    assert!(!has_capture_extension("data.json"));
    assert!(!has_capture_extension("file."));
}
