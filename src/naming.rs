//! Target URLs and the names under which captured pages are saved.
use vstd::prelude::*;
use crate::text::{trim, trim_start, trim_end, starts_with, chars_of, string_of, str_trim, str_starts_with};

verus! {

/// `s` without its trailing `/` characters.
pub open spec fn trim_end_slashes(s: Seq<char>) -> Seq<char>
    decreases s.len(),
{
    if s.len() > 0 && s.last() == '/' {
        trim_end_slashes(s.drop_last())
    } else {
        s
    }
}

/// `s` without its leading `/` characters.
pub open spec fn trim_start_slashes(s: Seq<char>) -> Seq<char>
    decreases s.len(),
{
    if s.len() > 0 && s[0] == '/' {
        trim_start_slashes(s.drop_first())
    } else {
        s
    }
}

pub open spec fn https_tag() -> Seq<char> {
    seq!['h', 't', 't', 'p', 's', ':', '/', '/']
}

pub open spec fn http_tag() -> Seq<char> {
    seq!['h', 't', 't', 'p', ':', '/', '/']
}

/// The URL without its scheme. An `https://` prefix is looked for after
/// trimming; an `http://` prefix is looked for on the URL as given.
pub open spec fn strip_scheme(url: Seq<char>) -> Seq<char> {
    let t = trim(url);
    if starts_with(t, https_tag()) {
        t.subrange(8, t.len() as int)
    } else if starts_with(url, http_tag()) {
        url.subrange(7, url.len() as int)
    } else {
        url
    }
}

/// The characters that cannot stand in a file name and become `_`.
pub open spec fn is_folded(c: char) -> bool {
    c == '/' || c == ':' || c == '\\' || c == '*' || c == '?' || c == '"' || c == '|' || c == '<'
        || c == '>' || c == ' '
}

pub open spec fn fold_char(c: char) -> char {
    if is_folded(c) {
        '_'
    } else {
        c
    }
}

/// The file-name form of a URL: scheme and trailing slashes removed, the
/// characters of `is_folded` turned into `_`.
pub open spec fn sanitized(url: Seq<char>) -> Seq<char> {
    trim_end_slashes(strip_scheme(url)).map_values(|c: char| fold_char(c))
}

/// The file-name form of a probed path: leading slashes removed, every other
/// `/` turned into `_`, and `root` for the empty path.
pub open spec fn path_key(path: Seq<char>) -> Seq<char> {
    let p = trim_start_slashes(path).map_values(|c: char| if c == '/' { '_' } else { c });
    if p.len() == 0 {
        seq!['r', 'o', 'o', 't']
    } else {
        p
    }
}

pub open spec fn data_suffix() -> Seq<char> {
    seq!['_', 'd', 'a', 't', 'a', '.', 't', 'x', 't']
}

/// `<sanitized base>_<path key>_data.txt`.
pub open spec fn capture_name(base: Seq<char>, path: Seq<char>) -> Seq<char> {
    sanitized(base) + seq!['_'] + path_key(path) + data_suffix()
}

/// Appends the characters of `s` to `dst`.
fn push_str(dst: &mut Vec<char>, s: &str)
    ensures
        final(dst)@ == old(dst)@ + s@,
{
    let cs = chars_of(s);
    push_range(dst, &cs, 0, cs.len());
}

/// Appends `src[lo..hi]` to `dst`.
fn push_range(dst: &mut Vec<char>, src: &Vec<char>, lo: usize, hi: usize)
    requires
        lo <= hi <= src.len(),
    ensures
        final(dst)@ == old(dst)@ + src@.subrange(lo as int, hi as int),
{
    let ghost start = dst@;
    let mut i: usize = lo;
    while i < hi
        invariant
            lo <= i <= hi <= src.len(),
            dst@ == start + src@.subrange(lo as int, i as int),
        decreases hi - i,
    {
        dst.push(src[i]);
        assert(src@.subrange(lo as int, i + 1) =~= src@.subrange(lo as int, i as int).push(
            src@[i as int],
        ));
        i += 1;
    }
}

/// The length of `v` once its trailing `/` characters are dropped.
fn trimmed_end(v: &Vec<char>) -> (n: usize)
    ensures
        n <= v.len(),
        v@.subrange(0, n as int) == trim_end_slashes(v@),
{
    let mut n: usize = v.len();
    assert(v@.subrange(0, n as int) =~= v@);
    while n > 0 && v[n - 1] == '/'
        invariant
            n <= v.len(),
            trim_end_slashes(v@.subrange(0, n as int)) == trim_end_slashes(v@),
        decreases n,
    {
        assert(v@.subrange(0, n as int).drop_last() =~= v@.subrange(0, n - 1));
        n -= 1;
    }
    n
}

/// The index of the first character of `v` that is not `/`, or `v.len()`.
fn trimmed_start(v: &Vec<char>) -> (n: usize)
    ensures
        n <= v.len(),
        v@.subrange(n as int, v.len() as int) == trim_start_slashes(v@),
{
    let mut n: usize = 0;
    assert(v@.subrange(0, v.len() as int) =~= v@);
    while n < v.len() && v[n] == '/'
        invariant
            n <= v.len(),
            trim_start_slashes(v@.subrange(n as int, v.len() as int)) == trim_start_slashes(v@),
        decreases v.len() - n,
    {
        assert(v@.subrange(n as int, v.len() as int).drop_first() =~= v@.subrange(
            n + 1,
            v.len() as int,
        ));
        n += 1;
    }
    n
}

/// The URL without its scheme, as characters.
fn scheme_stripped(url: &str) -> (r: Vec<char>)
    ensures
        r@ == strip_scheme(url@),
{
    proof {
        reveal_strlit("https://");
        reveal_strlit("http://");
        assert("https://"@ =~= https_tag());
        assert("http://"@ =~= http_tag());
    }
    let t = str_trim(url);
    if str_starts_with(t.as_str(), "https://") {
        let n = t.as_str().unicode_len();
        chars_of(t.as_str().substring_char(8, n))
    } else if str_starts_with(url, "http://") {
        let n = url.unicode_len();
        chars_of(url.substring_char(7, n))
    } else {
        chars_of(url)
    }
}

/// The file-name form of a URL: `https://` or `http://` removed, trailing
/// slashes removed, and each of `/ : \ * ? " | < >` and space replaced by `_`.
pub fn sanitize_filename(url: &str) -> (r: String)
    ensures
        r@ == sanitized(url@),
{
    let rest = scheme_stripped(url);
    let end = trimmed_end(&rest);
    let mut out: Vec<char> = Vec::new();
    let mut i: usize = 0;
    while i < end
        invariant
            end <= rest.len(),
            i <= end,
            out@ == rest@.subrange(0, i as int).map_values(|c: char| fold_char(c)),
        decreases end - i,
    {
        let c = rest[i];
        let f = if c == '/' || c == ':' || c == '\\' || c == '*' || c == '?' || c == '"' || c
            == '|' || c == '<' || c == '>' || c == ' ' {
            '_'
        } else {
            c
        };
        out.push(f);
        assert(rest@.subrange(0, i + 1).map_values(|c: char| fold_char(c)) =~= rest@.subrange(
            0,
            i as int,
        ).map_values(|c: char| fold_char(c)).push(f));
        i += 1;
    }
    string_of(&out)
}

/// The name of the file that holds the page found at `path` under `base_url`:
/// `<sanitized base>_<path>_data.txt`, the path without leading slashes and with
/// `/` as `_`, or `<sanitized base>_root_data.txt` for the empty path.
pub fn capture_file_name(base_url: &str, path: &str) -> (r: String)
    ensures
        r@ == capture_name(base_url@, path@),
{
    let base = sanitize_filename(base_url);
    let p = chars_of(path);
    let start = trimmed_start(&p);
    let mut key: Vec<char> = Vec::new();
    let mut i: usize = start;
    while i < p.len()
        invariant
            start <= i <= p.len(),
            key@ == p@.subrange(start as int, i as int).map_values(
                |c: char| if c == '/' { '_' } else { c },
            ),
        decreases p.len() - i,
    {
        let c = p[i];
        let f = if c == '/' { '_' } else { c };
        key.push(f);
        assert(p@.subrange(start as int, i + 1).map_values(
            |c: char| if c == '/' { '_' } else { c },
        ) =~= p@.subrange(start as int, i as int).map_values(
            |c: char| if c == '/' { '_' } else { c },
        ).push(f));
        i += 1;
    }
    let mut out = chars_of(base.as_str());
    out.push('_');
    if key.len() == 0 {
        out.push('r');
        out.push('o');
        out.push('o');
        out.push('t');
    } else {
        push_range(&mut out, &key, 0, key.len());
    }
    out.push('_');
    out.push('d');
    out.push('a');
    out.push('t');
    out.push('a');
    out.push('.');
    out.push('t');
    out.push('x');
    out.push('t');
    assert(key@.subrange(0, key.len() as int) =~= key@);
    assert(out@ =~= capture_name(base_url@, path@));
    string_of(&out)
}

/// For one base URL, paths whose keys differ are saved under different names.
pub proof fn lemma_capture_name_separates_paths(base: Seq<char>, p1: Seq<char>, p2: Seq<char>)
    requires
        path_key(p1) != path_key(p2),
    ensures
        capture_name(base, p1) != capture_name(base, p2),
{
    let a: int = sanitized(base).len() as int + 1;
    let n1 = capture_name(base, p1);
    let n2 = capture_name(base, p2);
    if n1 == n2 {
        let k: int = path_key(p1).len() as int;
        assert(n1.len() == a + k + 9);
        assert(n2.len() == a + path_key(p2).len() + 9);
        assert(path_key(p2).len() == k);
        assert(n1.subrange(a, a + k) =~= path_key(p1));
        assert(n2.subrange(a, a + k) =~= path_key(p2));
    }
}

/// For one path, base URLs whose sanitized forms differ give different names.
pub proof fn lemma_capture_name_separates_bases(b1: Seq<char>, b2: Seq<char>, path: Seq<char>)
    requires
        sanitized(b1) != sanitized(b2),
    ensures
        capture_name(b1, path) != capture_name(b2, path),
{
    let n1 = capture_name(b1, path);
    let n2 = capture_name(b2, path);
    if n1 == n2 {
        let k: int = sanitized(b1).len() as int;
        assert(n1.len() == k + 1 + path_key(path).len() + 9);
        assert(n2.len() == sanitized(b2).len() + 1 + path_key(path).len() + 9);
        assert(sanitized(b2).len() == k);
        assert(n1.subrange(0, k) =~= sanitized(b1));
        assert(n2.subrange(0, k) =~= sanitized(b2));
    }
}

/// The characters that a capture name cannot tell apart: those of `is_folded`
/// and `_` itself.
pub open spec fn is_ambiguous(c: char) -> bool {
    is_folded(c) || c == '_'
}

/// What a capture name stands for: the URL without scheme and trailing slashes,
/// a `/`, and the path without leading slashes.
pub open spec fn capture_target(base: Seq<char>, path: Seq<char>) -> Seq<char> {
    trim_end_slashes(strip_scheme(base)) + seq!['/'] + trim_start_slashes(path)
}

/// Each character of a capture name before its suffix is the matching
/// character of its target, or `_` where the target has an ambiguous character.
pub proof fn lemma_capture_name_follows_target(base: Seq<char>, path: Seq<char>)
    requires
        trim_start_slashes(path).len() > 0,
    ensures
        capture_name(base, path).len() == capture_target(base, path).len() + data_suffix().len(),
        forall|i: int|
            0 <= i < capture_target(base, path).len() ==> (#[trigger] capture_name(base, path)[i]
                == '_' ==> is_ambiguous(capture_target(base, path)[i])) && (capture_name(
                base,
                path,
            )[i] != '_' ==> capture_name(base, path)[i] == capture_target(base, path)[i]),
{
    let s = trim_end_slashes(strip_scheme(base));
    let q = trim_start_slashes(path);
    let n = capture_name(base, path);
    let t = capture_target(base, path);
    let k = q.map_values(|c: char| if c == '/' { '_' } else { c });
    assert(path_key(path) == k);
    assert forall|i: int| 0 <= i < t.len() implies (#[trigger] n[i] == '_' ==> is_ambiguous(t[i]))
        && (n[i] != '_' ==> n[i] == t[i]) by {
        if i < s.len() {
            assert(n[i] == sanitized(base)[i]);
            assert(t[i] == s[i]);
        } else if i == s.len() {
            assert(n[i] == '_');
            assert(t[i] == '/');
        } else {
            let j = i - s.len() - 1;
            assert(n[i] == k[j]);
            assert(t[i] == q[j]);
        }
    }
}

/// Two capture names are equal only where their targets have equal length and
/// differ, position by position, in ambiguous characters alone: distinct
/// (base, path) pairs collide only through the folding of `/ : \ * ? " | < >`,
/// space and `_`.
pub proof fn lemma_capture_name_collisions(b1: Seq<char>, p1: Seq<char>, b2: Seq<char>, p2: Seq<char>)
    requires
        trim_start_slashes(p1).len() > 0,
        trim_start_slashes(p2).len() > 0,
        capture_name(b1, p1) == capture_name(b2, p2),
    ensures
        capture_target(b1, p1).len() == capture_target(b2, p2).len(),
        forall|i: int|
            0 <= i < capture_target(b1, p1).len() ==> #[trigger] capture_target(b1, p1)[i]
                == capture_target(b2, p2)[i] || (is_ambiguous(capture_target(b1, p1)[i])
                && is_ambiguous(capture_target(b2, p2)[i])),
{
    lemma_capture_name_follows_target(b1, p1);
    lemma_capture_name_follows_target(b2, p2);
    let n = capture_name(b1, p1);
    let t1 = capture_target(b1, p1);
    let t2 = capture_target(b2, p2);
    assert forall|i: int| 0 <= i < t1.len() implies #[trigger] t1[i] == t2[i] || (is_ambiguous(t1[i])
        && is_ambiguous(t2[i])) by {
        assert(n[i] == capture_name(b1, p1)[i]);
        assert(n[i] == capture_name(b2, p2)[i]);
    }
}

/// No character of `s` is one that sanitizing folds.
pub open spec fn unfolded(s: Seq<char>) -> bool {
    forall|i: int| 0 <= i < s.len() ==> !is_folded(#[trigger] s[i])
}

proof fn lemma_trim_start_unfolded(s: Seq<char>)
    requires
        unfolded(s),
    ensures
        unfolded(trim_start(s)),
    decreases s.len(),
{
    if s.len() > 0 && crate::text::is_space(s[0]) {
        assert forall|i: int| 0 <= i < s.drop_first().len() implies !is_folded(
            #[trigger] s.drop_first()[i],
        ) by {
            assert(s.drop_first()[i] == s[i + 1]);
        }
        lemma_trim_start_unfolded(s.drop_first());
    }
}

proof fn lemma_trim_end_unfolded(s: Seq<char>)
    requires
        unfolded(s),
    ensures
        unfolded(trim_end(s)),
    decreases s.len(),
{
    if s.len() > 0 && crate::text::is_space(s.last()) {
        assert forall|i: int| 0 <= i < s.drop_last().len() implies !is_folded(
            #[trigger] s.drop_last()[i],
        ) by {
            assert(s.drop_last()[i] == s[i]);
        }
        lemma_trim_end_unfolded(s.drop_last());
    }
}

/// Sanitizing is idempotent: a sanitized name is its own file-name form.
pub proof fn lemma_sanitize_idempotent(url: Seq<char>)
    ensures
        sanitized(sanitized(url)) == sanitized(url),
{
    let s = sanitized(url);
    assert(unfolded(s));
    lemma_trim_start_unfolded(s);
    lemma_trim_end_unfolded(trim_start(s));
    let t = trim(s);
    if starts_with(t, https_tag()) {
        assert(t.subrange(0, 8)[5] == ':');
        assert(t[5] == ':');
    }
    if starts_with(s, http_tag()) {
        assert(s.subrange(0, 7)[4] == ':');
        assert(s[4] == ':');
    }
    assert(strip_scheme(s) == s);
    if s.len() > 0 {
        assert(s[s.len() - 1] != '/');
    }
    assert(trim_end_slashes(s) == s);
    assert(s.map_values(|c: char| fold_char(c)) =~= s);
}

/// The URL given on the command line, with its trailing slashes replaced by one.
pub open spec fn base_url_spec(url: Seq<char>) -> Seq<char> {
    trim_end_slashes(url).push('/')
}

/// The base URL that every probe is made against: the trailing slashes of `url`
/// replaced by exactly one.
pub fn base_url_of(url: &str) -> (r: String)
    ensures
        r@ == base_url_spec(url@),
{
    let v = chars_of(url);
    let end = trimmed_end(&v);
    let mut out: Vec<char> = Vec::new();
    push_range(&mut out, &v, 0, end);
    out.push('/');
    string_of(&out)
}

/// The URL probed for `path`: the base without trailing slashes, then the path.
pub fn probe_url(base_url: &str, path: &str) -> (r: String)
    ensures
        r@ == trim_end_slashes(base_url@) + path@,
{
    let v = chars_of(base_url);
    let end = trimmed_end(&v);
    let mut out: Vec<char> = Vec::new();
    push_range(&mut out, &v, 0, end);
    push_str(&mut out, path);
    string_of(&out)
}

/// The URL of the target's `robots.txt`: the base URL followed by `robots.txt`.
pub fn robots_url(base_url: &str) -> (r: String)
    ensures
        r@ == base_url@ + "robots.txt"@,
{
    let mut out = chars_of(base_url);
    push_str(&mut out, "robots.txt");
    string_of(&out)
}

/// A scan target must be an absolute `http://` or `https://` URL.
pub fn is_valid_target(url: &str) -> (r: bool)
    ensures
        r == (starts_with(url@, http_tag()) || starts_with(url@, https_tag())),
{
    proof {
        reveal_strlit("https://");
        reveal_strlit("http://");
        assert("https://"@ =~= https_tag());
        assert("http://"@ =~= http_tag());
    }
    str_starts_with(url, "http://") || str_starts_with(url, "https://")
}

/// The directory that receives the intelligence summary files.
pub fn get_intel_dir_path() -> (r: String)
    ensures
        r@ == "intel"@,
{
    String::from_str("intel")
}

} // verus!
