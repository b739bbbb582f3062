use webrecon::intel::{
    collect_api_endpoints, collect_comments, collect_links, collect_meta, detect_technologies,
    merge_into, scan_all_html_files, scan_for_information, tech_keywords, Extractor, ScannerInfos,
};

fn sorted(mut v: Vec<String>) -> Vec<String> {
    v.sort();
    v
}

#[test]
fn comments_trimmed_and_blank_dropped() {
    let info = scan_for_information("<!-- hello --><!--  -->").unwrap();
    assert_eq!(info.comments, vec!["hello".to_string()]);
}

#[test]
fn multiline_comment_is_captured() {
    let info = scan_for_information("<p>x</p><!--\n a\n b \n-->").unwrap();
    assert_eq!(info.comments, vec!["a\n b".to_string()]);
}

#[test]
fn email_found_in_text() {
    let info = scan_for_information("<p>contact me at a.b@example.com!</p>").unwrap();
    assert_eq!(info.emails, vec!["a.b@example.com".to_string()]);
}

#[test]
fn email_found_in_attribute_and_deduplicated() {
    let doc = "<a href=\"mailto:x@y.org\">x@y.org</a>";
    let info = scan_for_information(doc).unwrap();
    assert_eq!(info.emails, vec!["x@y.org".to_string()]);
}

#[test]
fn scripts_and_stylesheets_share_one_set() {
    let doc = "<script src=\"/app.js\"></script><link rel=\"stylesheet\" href=\"/s.css\">";
    let info = scan_for_information(doc).unwrap();
    assert_eq!(sorted(info.scripts), vec!["/app.js".to_string(), "/s.css".to_string()]);
}

#[test]
fn data_src_joins_scripts() {
    let doc = "<script src=\"/a.js\"></script><img data-src=\"/lazy.png\"><div data-src=\"/a.js\"></div>";
    let info = scan_for_information(doc).unwrap();
    assert_eq!(sorted(info.scripts), vec!["/a.js".to_string(), "/lazy.png".to_string()]);
}

#[test]
fn only_absolute_links_kept_once() {
    let doc = "<a href=\"https://x.com\">x</a><a href=\"/local\">l</a><a href=\"https://x.com\">y</a>";
    let info = scan_for_information(doc).unwrap();
    assert_eq!(info.links, vec!["https://x.com".to_string()]);
}

#[test]
fn meta_needs_both_values() {
    let doc = "<meta name=\"description\" content=\"Site\"><meta name=\"\" content=\"x\"><meta name=\"k\" content=\"\">";
    let info = scan_for_information(doc).unwrap();
    assert_eq!(info.meta_tags, vec!["description: Site".to_string()]);
}

#[test]
fn api_paths_without_scheme() {
    let doc = "<script>fetch(\"/api/v1/users?id=1\"); go('/graphql/q');</script>";
    let info = scan_for_information(doc).unwrap();
    assert_eq!(sorted(info.api_endpoints), vec!["/api/v1/users".to_string(), "/graphql/q".to_string()]);
}

#[test]
fn technologies_case_insensitive_in_visible_text() {
    let info = scan_for_information("<html><body>Powered by NGINX and jQuery</body></html>").unwrap();
    assert_eq!(info.technologies, vec!["nginx".to_string(), "jquery".to_string()]);
    assert!(info.webserver.is_empty());
}

#[test]
fn keywords_can_be_injected() {
    let ex = Extractor::new(vec!["Tech_X".to_string()]).unwrap();
    let info = ex.scan_all(&vec!["<p>uses TECH_x</p>".to_string()]);
    assert_eq!(info.technologies, vec!["Tech_X".to_string()]);
}

#[test]
fn union_of_two_files_sets_once_lists_twice() {
    let ex = Extractor::new(vec!["tech_x".to_string()]).unwrap();
    let docs = vec![
        "<p>tech_x here</p><!-- note -->".to_string(),
        "<p>more tech_x</p><!-- note -->".to_string(),
    ];
    let all = ex.scan_all(&docs);
    assert_eq!(all.technologies, vec!["tech_x".to_string()]);
    assert_eq!(all.comments, vec!["note".to_string(), "note".to_string()]);
}

#[test]
fn scan_all_with_no_documents_is_empty() {
    let all = scan_all_html_files(&vec![]).unwrap();
    assert!(all.technologies.is_empty() && all.comments.is_empty() && all.scripts.is_empty());
}

#[test]
fn default_keyword_list() {
    let k = tech_keywords();
    assert_eq!(k.len(), 22);
    assert_eq!(k[0], "google");
    assert_eq!(k[21], "font awesome");
}

#[test]
fn merge_unions_sets_and_concatenates_lists() {
    let mut acc = ScannerInfos::new();
    let mut a = ScannerInfos::default();
    a.emails = vec!["x@y.org".to_string()];
    a.comments = vec!["c".to_string()];
    a.webserver = vec!["nginx".to_string()];
    let mut b = ScannerInfos::new();
    b.emails = vec!["x@y.org".to_string(), "z@y.org".to_string()];
    b.comments = vec!["c".to_string()];
    merge_into(&mut acc, &a);
    merge_into(&mut acc, &b);
    assert_eq!(acc.emails, vec!["x@y.org".to_string(), "z@y.org".to_string()]);
    assert_eq!(acc.comments, vec!["c".to_string(), "c".to_string()]);
    assert_eq!(acc.webserver, vec!["nginx".to_string()]);
}

#[test]
fn collectors_on_given_results() {
    assert_eq!(
        collect_links(&vec!["http://a".to_string(), "ftp://b".to_string(), "http://a".to_string()]),
        vec!["http://a".to_string()]
    );
    assert_eq!(
        collect_api_endpoints(&vec!["/api/".to_string(), "/api".to_string(), "/rest/x://y".to_string()]),
        vec!["/api/".to_string()]
    );
    assert_eq!(
        collect_comments(&vec![Some("  a ".to_string()), None, Some(" ".to_string())]),
        vec!["a".to_string()]
    );
    assert_eq!(
        collect_meta(&vec![vec![Some("n".to_string()), Some("c".to_string())], vec![None, Some("c".to_string())]]),
        vec!["n: c".to_string()]
    );
    assert_eq!(
        detect_technologies(
            "uses react and vue.js",
            &vec!["React".to_string(), "Vue.js".to_string(), "Angular".to_string()],
            &vec!["react".to_string(), "vue.js".to_string(), "angular".to_string()]
        ),
        vec!["React".to_string(), "Vue.js".to_string()]
    );
}

#[test]
fn technologies_ignore_markup_outside_text() {
    let info = scan_for_information("<div class=\"react\" id=\"nginx\">hello</div>").unwrap();
    assert!(info.technologies.is_empty());
}

#[test]
fn extract_one_document_with_custom_keywords() {
    let ex = Extractor::new(vec!["beta".to_string(), "alpha".to_string(), "beta".to_string()]).unwrap();
    let info = ex.extract("<title>Alpha and BETA</title><p>mail ops@corp.io</p>");
    assert_eq!(info.technologies, vec!["beta".to_string(), "alpha".to_string()]);
    assert_eq!(info.emails, vec!["ops@corp.io".to_string()]);
}

#[test]
fn malformed_markup_still_extracts() {
    let info = scan_for_information("<div><p>broken <a href=\"https://z.io\">z<!-- keep --> <script").unwrap();
    assert_eq!(info.links, vec!["https://z.io".to_string()]);
    assert_eq!(info.comments, vec!["keep".to_string()]);
}
