use webrecon::naming::{
    base_url_of, capture_file_name, get_intel_dir_path, is_valid_target, probe_url, robots_url,
    sanitize_filename,
};

#[test]
fn sanitize_strips_scheme_and_trailing_slash() {
    assert_eq!(sanitize_filename("https://example.com/"), "example.com");
    assert_eq!(sanitize_filename("http://example.com//"), "example.com");
}

#[test]
fn sanitize_folds_reserved_characters() {
    assert_eq!(sanitize_filename("http://a.com:8080/x y?q=\"1\"|<>*\\"), "a.com_8080_x_y_q=_1______");
}

#[test]
fn capture_name_for_root_and_paths() {
    assert_eq!(capture_file_name("https://a.com/", ""), "a.com_root_data.txt");
    assert_eq!(capture_file_name("https://a.com/", "/"), "a.com_root_data.txt");
    assert_eq!(capture_file_name("https://a.com/", "/admin/panel"), "a.com_admin_panel_data.txt");
}

#[test]
fn capture_names_differ_for_distinct_paths_and_hosts() {
    let a = capture_file_name("https://a.com/", "/x");
    let b = capture_file_name("https://a.com/", "/y");
    let c = capture_file_name("https://b.com/", "/x");
    assert_ne!(a, b);
    assert_ne!(a, c);
}

#[test]
fn capture_names_collide_only_through_folding() {
    assert_eq!(
        capture_file_name("http://a.com/", "/x/y"),
        capture_file_name("http://a.com_x/", "/y")
    );
}

#[test]
fn urls_are_built_from_the_base() {
    assert_eq!(base_url_of("https://a.com"), "https://a.com/");
    assert_eq!(base_url_of("https://a.com///"), "https://a.com/");
    assert_eq!(probe_url("https://a.com/", "/.env"), "https://a.com/.env");
    assert_eq!(robots_url("https://a.com/"), "https://a.com/robots.txt");
}

#[test]
fn target_must_have_http_scheme() {
    assert!(is_valid_target("http://a.com"));
    assert!(is_valid_target("https://a.com"));
    assert!(!is_valid_target("ftp://a.com"));
    assert!(!is_valid_target("a.com"));
}

#[test]
fn intel_dir_name() {
    assert_eq!(get_intel_dir_path(), "intel");
}

#[test]
fn sanitize_twice_is_sanitize_once() {
    let once = sanitize_filename("https://a.com:8080/x y/");
    assert_eq!(once, "a.com_8080_x_y");
    assert_eq!(sanitize_filename(&once), once);
}
