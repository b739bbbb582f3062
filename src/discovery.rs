//! Candidate path discovery: `robots.txt` directives, wordlists, the fixed list
//! of sensitive paths, and their merge into one probe list.
use vstd::prelude::*;
use crate::text::{
    trim, trim_start, starts_with, split_on, str_trim, str_trim_start, str_starts_with, str_split,
};

verus! {

pub open spec fn disallow_tag() -> Seq<char> {
    seq!['D', 'i', 's', 'a', 'l', 'l', 'o', 'w', ':']
}

pub open spec fn allow_tag() -> Seq<char> {
    seq!['A', 'l', 'l', 'o', 'w', ':']
}

/// The trimmed value of an `Allow:` / `Disallow:` line, `None` for any other line.
pub open spec fn directive_value(l: Seq<char>) -> Option<Seq<char>> {
    let t = trim_start(l);
    if starts_with(t, disallow_tag()) {
        Some(trim(t.subrange(disallow_tag().len() as int, t.len() as int)))
    } else if starts_with(t, allow_tag()) {
        Some(trim(t.subrange(allow_tag().len() as int, t.len() as int)))
    } else {
        None
    }
}

/// The path that one `robots.txt` line contributes, made to start with `/`.
pub open spec fn robots_line(l: Seq<char>) -> Option<Seq<char>> {
    match directive_value(l) {
        None => None,
        Some(v) => if v.len() == 0 || v == seq!['*'] {
            None
        } else if v[0] == '/' {
            Some(v)
        } else {
            Some(seq!['/'] + v)
        },
    }
}

/// The paths that a sequence of `robots.txt` lines contributes, in order.
pub open spec fn robots_paths(lines: Seq<Seq<char>>) -> Seq<Seq<char>>
    decreases lines.len(),
{
    if lines.len() == 0 {
        seq![]
    } else {
        let prev = robots_paths(lines.drop_last());
        match robots_line(lines.last()) {
            Some(p) => prev.push(p),
            None => prev,
        }
    }
}

/// A wordlist line is kept unless it is blank or, once trimmed, starts with `#`.
pub open spec fn is_kept_line(l: Seq<char>) -> bool {
    trim(l).len() > 0 && trim(l)[0] != '#'
}

/// The entry that one kept wordlist line contributes: the trimmed line, made
/// to start with `/`.
pub open spec fn wordlist_line(l: Seq<char>) -> Option<Seq<char>> {
    let t = trim(l);
    if !is_kept_line(l) {
        None
    } else if t[0] == '/' {
        Some(t)
    } else {
        Some(seq!['/'] + t)
    }
}

/// How many of `lines` are kept.
pub open spec fn kept_count(lines: Seq<Seq<char>>) -> nat
    decreases lines.len(),
{
    if lines.len() == 0 {
        0
    } else if is_kept_line(lines.last()) {
        kept_count(lines.drop_last()) + 1
    } else {
        kept_count(lines.drop_last())
    }
}

/// The entries that a sequence of wordlist lines contributes, in order.
pub open spec fn wordlist_paths(lines: Seq<Seq<char>>) -> Seq<Seq<char>>
    decreases lines.len(),
{
    if lines.len() == 0 {
        seq![]
    } else {
        let prev = wordlist_paths(lines.drop_last());
        match wordlist_line(lines.last()) {
            Some(p) => prev.push(p),
            None => prev,
        }
    }
}

/// The path one `robots.txt` line contributes, if any.
pub fn parse_robots_line(line: &str) -> (r: Option<String>)
    ensures
        r.deep_view() == robots_line(line@),
{
    proof {
        reveal_strlit("Disallow:");
        reveal_strlit("Allow:");
        reveal_strlit("/");
        assert("Disallow:"@ =~= disallow_tag());
        assert("Allow:"@ =~= allow_tag());
        assert("/"@ =~= seq!['/']);
    }
    let t = str_trim_start(line);
    let tag_len: usize;
    if str_starts_with(t.as_str(), "Disallow:") {
        tag_len = 9;
    } else if str_starts_with(t.as_str(), "Allow:") {
        tag_len = 6;
    } else {
        return None;
    }
    let n = t.as_str().unicode_len();
    let rest = t.as_str().substring_char(tag_len, n);
    let v = str_trim(rest);
    let vn = v.as_str().unicode_len();
    if vn == 0 {
        return None;
    }
    let first = v.as_str().get_char(0);
    if vn == 1 && first == '*' {
        assert(v@ =~= seq!['*']);
        return None;
    }
    assert(v@ != seq!['*']);
    if first == '/' {
        Some(v)
    } else {
        let mut p = String::from_str("/");
        p.append(v.as_str());
        Some(p)
    }
}

/// The candidate paths of a `robots.txt` body: one for each `Allow:` or
/// `Disallow:` line whose value is neither empty nor `*`, in file order,
/// without deduplication.
pub fn parse_robots_txt(body: &str) -> (r: Vec<String>)
    ensures
        r.deep_view() == robots_paths(split_on(body@, '\n')),
{
    let lines = str_split(body, '\n');
    let mut out: Vec<String> = Vec::new();
    let mut i: usize = 0;
    while i < lines.len()
        invariant
            i <= lines.len(),
            lines.deep_view() == split_on(body@, '\n'),
            out.deep_view() == robots_paths(lines.deep_view().take(i as int)),
        decreases lines.len() - i,
    {
        let ghost before = out.deep_view();
        assert(lines.deep_view().take(i + 1).drop_last() =~= lines.deep_view().take(i as int));
        assert(lines.deep_view()[i as int] == lines[i as int]@);
        match parse_robots_line(lines[i].as_str()) {
            Some(p) => {
                out.push(p);
                assert(out.deep_view() =~= before.push(p@));
            },
            None => {},
        }
        i += 1;
    }
    assert(lines.deep_view().take(lines.len() as int) =~= lines.deep_view());
    out
}

/// The entry one wordlist line contributes, if any.
pub fn parse_wordlist_line(line: &str) -> (r: Option<String>)
    ensures
        r.deep_view() == wordlist_line(line@),
{
    proof {
        reveal_strlit("/");
        assert("/"@ =~= seq!['/']);
    }
    let t = str_trim(line);
    let n = t.as_str().unicode_len();
    if n == 0 {
        return None;
    }
    let first = t.as_str().get_char(0);
    if first == '#' {
        return None;
    }
    if first == '/' {
        Some(t)
    } else {
        let mut p = String::from_str("/");
        p.append(t.as_str());
        Some(p)
    }
}

/// The entries of a wordlist: each line trimmed and made to start with `/`,
/// blank lines and lines that start with `#` left out, file order kept.
pub fn parse_wordlist(text: &str) -> (r: Vec<String>)
    ensures
        r.deep_view() == wordlist_paths(split_on(text@, '\n')),
{
    let lines = str_split(text, '\n');
    let mut out: Vec<String> = Vec::new();
    let mut i: usize = 0;
    while i < lines.len()
        invariant
            i <= lines.len(),
            lines.deep_view() == split_on(text@, '\n'),
            out.deep_view() == wordlist_paths(lines.deep_view().take(i as int)),
        decreases lines.len() - i,
    {
        let ghost before = out.deep_view();
        assert(lines.deep_view().take(i + 1).drop_last() =~= lines.deep_view().take(i as int));
        assert(lines.deep_view()[i as int] == lines[i as int]@);
        match parse_wordlist_line(lines[i].as_str()) {
            Some(p) => {
                out.push(p);
                assert(out.deep_view() =~= before.push(p@));
            },
            None => {},
        }
        i += 1;
    }
    assert(lines.deep_view().take(lines.len() as int) =~= lines.deep_view());
    out
}

/// A `robots.txt` line contributes a path exactly when it is an `Allow:` or
/// `Disallow:` directive whose trimmed value is neither empty nor `*`; the path is
/// that value, with `/` put in front when it does not already start with one.
pub proof fn lemma_robots_line_rules(l: Seq<char>)
    ensures
        directive_value(l) is None ==> robots_line(l) is None,
        directive_value(l) == Some(seq!['*']) ==> robots_line(l) is None,
        directive_value(l) == Some(Seq::<char>::empty()) ==> robots_line(l) is None,
        forall|v: Seq<char>|
            directive_value(l) == Some(v) && v.len() > 0 && v != seq!['*'] ==> robots_line(l)
                == Some(if v[0] == '/' { v } else { seq!['/'] + v }),
        robots_line(l) matches Some(p) ==> p.len() > 0 && p[0] == '/',
{
}

/// The paths of a `robots.txt` body are the paths of its lines, concatenated in
/// line order: what one line contributes does not depend on the other lines.
pub proof fn lemma_robots_paths_concat(a: Seq<Seq<char>>, b: Seq<Seq<char>>)
    ensures
        robots_paths(a + b) == robots_paths(a) + robots_paths(b),
    decreases b.len(),
{
    if b.len() == 0 {
        assert(a + b =~= a);
        assert(robots_paths(a) + robots_paths(b) =~= robots_paths(a));
    } else {
        assert((a + b).drop_last() =~= a + b.drop_last());
        assert((a + b).last() == b.last());
        lemma_robots_paths_concat(a, b.drop_last());
        match robots_line(b.last()) {
            Some(p) => {
                assert(robots_paths(a) + robots_paths(b) =~= (robots_paths(a) + robots_paths(
                    b.drop_last(),
                )).push(p));
            },
            None => {},
        }
    }
}

/// Every path taken from `robots.txt` starts with `/`.
pub proof fn lemma_robots_paths_rooted(lines: Seq<Seq<char>>)
    ensures
        forall|i: int|
            0 <= i < robots_paths(lines).len() ==> #[trigger] robots_paths(lines)[i].len() > 0
                && robots_paths(lines)[i][0] == '/',
    decreases lines.len(),
{
    if lines.len() > 0 {
        lemma_robots_paths_rooted(lines.drop_last());
        lemma_robots_line_rules(lines.last());
        let prev = robots_paths(lines.drop_last());
        assert forall|i: int| 0 <= i < robots_paths(lines).len() implies #[trigger] robots_paths(
            lines,
        )[i].len() > 0 && robots_paths(lines)[i][0] == '/' by {
            if i < prev.len() {
                assert(robots_paths(lines)[i] == prev[i]);
            }
        }
    }
}

/// Blank and `#` lines are left out of a wordlist and nothing else is: there is
/// one entry per kept line, and every entry is a path that starts with `/`.
pub proof fn lemma_wordlist_entries(lines: Seq<Seq<char>>)
    ensures
        wordlist_paths(lines).len() == kept_count(lines),
        forall|i: int|
            0 <= i < wordlist_paths(lines).len() ==> #[trigger] wordlist_paths(lines)[i].len() > 0
                && wordlist_paths(lines)[i][0] == '/',
    decreases lines.len(),
{
    if lines.len() > 0 {
        lemma_wordlist_entries(lines.drop_last());
        let prev = wordlist_paths(lines.drop_last());
        assert forall|i: int| 0 <= i < wordlist_paths(lines).len() implies #[trigger] wordlist_paths(
            lines,
        )[i].len() > 0 && wordlist_paths(lines)[i][0] == '/' by {
            if i < prev.len() {
                assert(wordlist_paths(lines)[i] == prev[i]);
            }
        }
    }
}

/// The fixed list of sensitive paths that every scan probes first.
pub open spec fn predefined_spec() -> Seq<Seq<char>> {
    seq![
        "/etc/passwd"@, "/etc/shadow"@, "/proc/self/environ"@, "/proc/version"@,
        "/.git/config"@, "/config.php"@, "/wp-config.php"@, "/sitemap.xml"@, "/.env"@,
        "/server-status"@, "/server-info"@, "/phpinfo.php"@, "/backup.sql"@,
        "/config/database.yml"@, "/WEB-INF/web.xml"@, "/web.config"@,
    ]
}

/// The fixed list of sensitive paths, in probe order.
pub fn predefined_paths() -> (r: Vec<String>)
    ensures
        r.deep_view() == predefined_spec(),
{
    let mut r: Vec<String> = Vec::new();
    r.push(String::from_str("/etc/passwd"));
    r.push(String::from_str("/etc/shadow"));
    r.push(String::from_str("/proc/self/environ"));
    r.push(String::from_str("/proc/version"));
    r.push(String::from_str("/.git/config"));
    r.push(String::from_str("/config.php"));
    r.push(String::from_str("/wp-config.php"));
    r.push(String::from_str("/sitemap.xml"));
    r.push(String::from_str("/.env"));
    r.push(String::from_str("/server-status"));
    r.push(String::from_str("/server-info"));
    r.push(String::from_str("/phpinfo.php"));
    r.push(String::from_str("/backup.sql"));
    r.push(String::from_str("/config/database.yml"));
    r.push(String::from_str("/WEB-INF/web.xml"));
    r.push(String::from_str("/web.config"));
    assert(r.deep_view() =~= predefined_spec());
    r
}

/// Moves every string of `src` to the end of `dst`, in order.
fn append_all(dst: &mut Vec<String>, src: Vec<String>)
    ensures
        final(dst).deep_view() == old(dst).deep_view() + src.deep_view(),
{
    let ghost start = dst.deep_view();
    let mut i: usize = 0;
    while i < src.len()
        invariant
            i <= src.len(),
            dst.deep_view() == start + src.deep_view().take(i as int),
        decreases src.len() - i,
    {
        let ghost before = dst.deep_view();
        dst.push(src[i].clone());
        assert(dst.deep_view() =~= before.push(src.deep_view()[i as int]));
        assert(src.deep_view().take(i + 1) =~= src.deep_view().take(i as int).push(
            src.deep_view()[i as int],
        ));
        i += 1;
    }
    assert(src.deep_view().take(src.len() as int) =~= src.deep_view());
}

/// One probe list: the predefined paths, then the `robots.txt` paths, then the
/// wordlist entries, each source in its own order and nothing removed.
pub fn aggregate_paths(predefined: Vec<String>, robots: Vec<String>, wordlist: Vec<String>) -> (r:
    Vec<String>)
    ensures
        r.deep_view() == predefined.deep_view() + robots.deep_view() + wordlist.deep_view(),
        r.len() == predefined.len() + robots.len() + wordlist.len(),
{
    let mut r = predefined;
    append_all(&mut r, robots);
    append_all(&mut r, wordlist);
    assert(r.deep_view().len() == r@.len());
    r
}

/// Every candidate of a probe list built from the predefined paths, a
/// `robots.txt` body and a wordlist starts with `/`.
pub proof fn lemma_probe_list_rooted(robots_body: Seq<char>, wordlist_text: Seq<char>)
    ensures
        forall|i: int|
            0 <= i < (predefined_spec() + robots_paths(split_on(robots_body, '\n')) + wordlist_paths(
                split_on(wordlist_text, '\n'),
            )).len() ==> #[trigger] (predefined_spec() + robots_paths(split_on(robots_body, '\n'))
                + wordlist_paths(split_on(wordlist_text, '\n')))[i].len() > 0 && (predefined_spec()
                + robots_paths(split_on(robots_body, '\n')) + wordlist_paths(
                split_on(wordlist_text, '\n'),
            ))[i][0] == '/',
{
    let p = predefined_spec();
    let r = robots_paths(split_on(robots_body, '\n'));
    let w = wordlist_paths(split_on(wordlist_text, '\n'));
    lemma_robots_paths_rooted(split_on(robots_body, '\n'));
    lemma_wordlist_entries(split_on(wordlist_text, '\n'));
    reveal_strlit("/etc/passwd");
    reveal_strlit("/etc/shadow");
    reveal_strlit("/proc/self/environ");
    reveal_strlit("/proc/version");
    reveal_strlit("/.git/config");
    reveal_strlit("/config.php");
    reveal_strlit("/wp-config.php");
    reveal_strlit("/sitemap.xml");
    reveal_strlit("/.env");
    reveal_strlit("/server-status");
    reveal_strlit("/server-info");
    reveal_strlit("/phpinfo.php");
    reveal_strlit("/backup.sql");
    reveal_strlit("/config/database.yml");
    reveal_strlit("/WEB-INF/web.xml");
    reveal_strlit("/web.config");
    assert forall|i: int| 0 <= i < p.len() implies #[trigger] p[i].len() > 0 && p[i][0] == '/' by {
    }
    let all = p + r + w;
    assert forall|i: int| 0 <= i < all.len() implies #[trigger] all[i].len() > 0 && all[i][0] == '/' by {
        if i < p.len() {
            assert(all[i] == p[i]);
        } else if i < p.len() + r.len() {
            assert(all[i] == r[i - p.len()]);
        } else {
            assert(all[i] == w[i - p.len() - r.len()]);
        }
    }
}

} // verus!
