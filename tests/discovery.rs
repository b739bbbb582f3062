use webrecon::discovery::{aggregate_paths, parse_robots_line, parse_robots_txt, parse_wordlist, predefined_paths};

#[test]
fn robots_disallow_without_slash_gets_one() {
    assert_eq!(parse_robots_txt("Disallow: foo"), vec!["/foo".to_string()]);
}

#[test]
fn robots_allow_keeps_path() {
    assert_eq!(parse_robots_txt("Allow: /bar/"), vec!["/bar/".to_string()]);
}

#[test]
fn robots_star_and_other_lines_yield_nothing() {
    let body = "User-agent: *\nDisallow: *\nSitemap: /sitemap.xml\n# comment\nDisallow:\n";
    assert!(parse_robots_txt(body).is_empty());
}

#[test]
fn robots_mixed_body_keeps_file_order_and_repeats() {
    let body = "User-agent: *\r\n  Disallow: /admin \r\nAllow: public\r\nDisallow: /admin\r\n";
    assert_eq!(
        parse_robots_txt(body),
        vec!["/admin".to_string(), "/public".to_string(), "/admin".to_string()]
    );
}

#[test]
fn robots_prefix_is_case_sensitive() {
    assert_eq!(parse_robots_line("disallow: /x"), None);
    assert_eq!(parse_robots_line("Disallow:/x"), Some("/x".to_string()));
}

#[test]
fn robots_empty_body() {
    assert!(parse_robots_txt("").is_empty());
}

#[test]
fn wordlist_drops_blank_and_comment_lines() {
    let text = "admin\n\n   \n# secret\n  #indented\n  login.php  \r\n/backup\n";
    assert_eq!(
        parse_wordlist(text),
        vec!["/admin".to_string(), "/login.php".to_string(), "/backup".to_string()]
    );
}

#[test]
fn wordlist_empty_text() {
    assert!(parse_wordlist("").is_empty());
}

#[test]
fn predefined_list_starts_and_ends_as_documented() {
    let p = predefined_paths();
    assert_eq!(p.len(), 16);
    assert_eq!(p[0], "/etc/passwd");
    assert_eq!(p[15], "/web.config");
}

#[test]
fn aggregate_keeps_order_and_duplicates() {
    let robots = parse_robots_txt("Disallow: /etc/passwd\nAllow: /a");
    let words = parse_wordlist("a\n#x\nb\n");
    let all = aggregate_paths(predefined_paths(), robots, words);
    assert_eq!(all.len(), 16 + 2 + 2);
    assert_eq!(all[16], "/etc/passwd");
    assert_eq!(all[17], "/a");
    assert_eq!(all[18], "/a");
    assert_eq!(all[19], "/b");
    assert_eq!(all.iter().filter(|p| p.as_str() == "/etc/passwd").count(), 2);
}
