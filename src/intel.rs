//! The intelligence record of one document, the collectors that build each of
//! its fields from what the parser and the pattern matcher found, and the
//! union of records across documents.
use vstd::prelude::*;
use crate::text::{contains_run, starts_with, str_trim, str_contains, str_starts_with};
use crate::markup::{
    Pattern, Query, Document, regex_compiles, selector_parses, regex_find_all, regex_group_all, selected_attrs, html_text, lower_of,
    compile_pattern, compile_query, find_all, group_all, select_attrs, visible_text, lowercase,
    parse_document,
};

verus! {

/// What one document, or a set of documents, reveals. The set fields
/// (`technologies`, `emails`, `scripts`, `links`, `api_endpoints`) never hold the
/// same string twice; the list fields keep document order and repeats.
pub struct ScannerInfos {
    pub webserver: Vec<String>,
    pub technologies: Vec<String>,
    pub emails: Vec<String>,
    pub scripts: Vec<String>,
    pub comments: Vec<String>,
    pub meta_tags: Vec<String>,
    pub links: Vec<String>,
    pub api_endpoints: Vec<String>,
}

/// The mathematical content of a `ScannerInfos`.
pub struct IntelView {
    pub webserver: Seq<Seq<char>>,
    pub technologies: Seq<Seq<char>>,
    pub emails: Seq<Seq<char>>,
    pub scripts: Seq<Seq<char>>,
    pub comments: Seq<Seq<char>>,
    pub meta_tags: Seq<Seq<char>>,
    pub links: Seq<Seq<char>>,
    pub api_endpoints: Seq<Seq<char>>,
}

impl View for ScannerInfos {
    type V = IntelView;

    open spec fn view(&self) -> IntelView {
        IntelView {
            webserver: self.webserver.deep_view(),
            technologies: self.technologies.deep_view(),
            emails: self.emails.deep_view(),
            scripts: self.scripts.deep_view(),
            comments: self.comments.deep_view(),
            meta_tags: self.meta_tags.deep_view(),
            links: self.links.deep_view(),
            api_endpoints: self.api_endpoints.deep_view(),
        }
    }
}

/// The record with nothing in it.
pub open spec fn empty_view() -> IntelView {
    IntelView {
        webserver: seq![],
        technologies: seq![],
        emails: seq![],
        scripts: seq![],
        comments: seq![],
        meta_tags: seq![],
        links: seq![],
        api_endpoints: seq![],
    }
}

impl IntelView {
    /// No set field holds a string twice.
    pub open spec fn wf(&self) -> bool {
        &&& self.technologies.no_duplicates()
        &&& self.emails.no_duplicates()
        &&& self.scripts.no_duplicates()
        &&& self.links.no_duplicates()
        &&& self.api_endpoints.no_duplicates()
    }
}

impl ScannerInfos {
    /// An empty record.
    pub fn new() -> (r: ScannerInfos)
        ensures
            r@ == empty_view(),
    {
        let r = ScannerInfos {
            webserver: Vec::new(),
            technologies: Vec::new(),
            emails: Vec::new(),
            scripts: Vec::new(),
            comments: Vec::new(),
            meta_tags: Vec::new(),
            links: Vec::new(),
            api_endpoints: Vec::new(),
        };
        assert(r@.webserver =~= seq![]);
        assert(r@.technologies =~= seq![]);
        assert(r@.emails =~= seq![]);
        assert(r@.scripts =~= seq![]);
        assert(r@.comments =~= seq![]);
        assert(r@.meta_tags =~= seq![]);
        assert(r@.links =~= seq![]);
        assert(r@.api_endpoints =~= seq![]);
        r
    }
}

impl Default for ScannerInfos {
    fn default() -> (r: ScannerInfos)
        ensures
            r@ == empty_view(),
    {
        ScannerInfos::new()
    }
}

/// `acc` with each of `items` appended in order, unless already there.
pub open spec fn dedup_extend(acc: Seq<Seq<char>>, items: Seq<Seq<char>>) -> Seq<Seq<char>>
    decreases items.len(),
{
    if items.len() == 0 {
        acc
    } else {
        let a = dedup_extend(acc, items.drop_last());
        if a.contains(items.last()) {
            a
        } else {
            a.push(items.last())
        }
    }
}

/// The distinct strings of `items`, in order of first occurrence.
pub open spec fn distinct(items: Seq<Seq<char>>) -> Seq<Seq<char>> {
    dedup_extend(seq![], items)
}

/// The values that are present, in order.
pub open spec fn present(values: Seq<Option<Seq<char>>>) -> Seq<Seq<char>>
    decreases values.len(),
{
    if values.len() == 0 {
        seq![]
    } else {
        match values.last() {
            Some(v) => present(values.drop_last()).push(v),
            None => present(values.drop_last()),
        }
    }
}

/// The first column of a table of attribute values.
pub open spec fn first_column(rows: Seq<Seq<Option<Seq<char>>>>) -> Seq<Option<Seq<char>>> {
    rows.map_values(|r: Seq<Option<Seq<char>>>| if r.len() > 0 { r[0] } else { None })
}

pub open spec fn http_prefix() -> Seq<char> {
    seq!['h', 't', 't', 'p']
}

/// The strings of `items` that start with `http`, in order.
pub open spec fn absolute_links(items: Seq<Seq<char>>) -> Seq<Seq<char>>
    decreases items.len(),
{
    if items.len() == 0 {
        seq![]
    } else if starts_with(items.last(), http_prefix()) {
        absolute_links(items.drop_last()).push(items.last())
    } else {
        absolute_links(items.drop_last())
    }
}

pub open spec fn scheme_sep() -> Seq<char> {
    seq![':', '/', '/']
}

/// A pattern match counts as an API endpoint when it is longer than four
/// characters and holds no `://`.
pub open spec fn is_endpoint(m: Seq<char>) -> bool {
    m.len() > 4 && !contains_run(m, scheme_sep())
}

/// The matches of `items` that count as endpoints, in order.
pub open spec fn endpoints(items: Seq<Seq<char>>) -> Seq<Seq<char>>
    decreases items.len(),
{
    if items.len() == 0 {
        seq![]
    } else if is_endpoint(items.last()) {
        endpoints(items.drop_last()).push(items.last())
    } else {
        endpoints(items.drop_last())
    }
}

/// The comment bodies: each present group trimmed, empty ones left out.
pub open spec fn comment_bodies(groups: Seq<Option<Seq<char>>>) -> Seq<Seq<char>>
    decreases groups.len(),
{
    if groups.len() == 0 {
        seq![]
    } else {
        let prev = comment_bodies(groups.drop_last());
        match groups.last() {
            Some(g) => if crate::text::trim(g).len() > 0 {
                prev.push(crate::text::trim(g))
            } else {
                prev
            },
            None => prev,
        }
    }
}

pub open spec fn meta_sep() -> Seq<char> {
    seq![':', ' ']
}

/// The entry of one `meta` element given its `name` and `content` values.
pub open spec fn meta_entry(row: Seq<Option<Seq<char>>>) -> Option<Seq<char>> {
    if row.len() < 2 {
        None
    } else {
        match (row[0], row[1]) {
            (Some(n), Some(c)) => if n.len() > 0 && c.len() > 0 {
                Some(n + meta_sep() + c)
            } else {
                None
            },
            _ => None,
        }
    }
}

/// `name: content` for each `meta` element with both values non-empty, in order.
pub open spec fn meta_entries(rows: Seq<Seq<Option<Seq<char>>>>) -> Seq<Seq<char>>
    decreases rows.len(),
{
    if rows.len() == 0 {
        seq![]
    } else {
        match meta_entry(rows.last()) {
            Some(e) => meta_entries(rows.drop_last()).push(e),
            None => meta_entries(rows.drop_last()),
        }
    }
}

/// The keywords whose lower-case form (`lowered`, index for index) occurs in
/// the lower-cased text, in keyword order.
pub open spec fn tech_hits(text: Seq<char>, keywords: Seq<Seq<char>>, lowered: Seq<Seq<char>>) -> Seq<
    Seq<char>,
>
    decreases keywords.len(),
{
    if keywords.len() == 0 {
        seq![]
    } else {
        let prev = tech_hits(text, keywords.drop_last(), lowered);
        if contains_run(text, lowered[keywords.len() - 1]) {
            prev.push(keywords.last())
        } else {
            prev
        }
    }
}

/// Whether `set` already holds `s`.
pub fn holds(set: &Vec<String>, s: &String) -> (r: bool)
    ensures
        r == set.deep_view().contains(s@),
{
    let mut i: usize = 0;
    while i < set.len()
        invariant
            i <= set.len(),
            forall|j: int| 0 <= j < i ==> set.deep_view()[j] != s@,
        decreases set.len() - i,
    {
        if set[i] == *s {
            assert(set.deep_view()[i as int] == s@);
            return true;
        }
        i += 1;
    }
    false
}

/// Adds `item` to the set `set` unless it is already there.
pub fn insert_unique(set: &mut Vec<String>, item: String)
    ensures
        final(set).deep_view() == (if old(set).deep_view().contains(item@) {
            old(set).deep_view()
        } else {
            old(set).deep_view().push(item@)
        }),
{
    if !holds(set, &item) {
        let ghost before = set.deep_view();
        set.push(item);
        assert(set.deep_view() =~= before.push(item@));
    }
}

/// Adds each of `items`, in order, to the set `set`.
pub fn insert_all(set: &mut Vec<String>, items: &Vec<String>)
    ensures
        final(set).deep_view() == dedup_extend(old(set).deep_view(), items.deep_view()),
{
    let ghost start = set.deep_view();
    let mut i: usize = 0;
    while i < items.len()
        invariant
            i <= items.len(),
            set.deep_view() == dedup_extend(start, items.deep_view().take(i as int)),
        decreases items.len() - i,
    {
        assert(items.deep_view().take(i + 1).drop_last() =~= items.deep_view().take(i as int));
        insert_unique(set, items[i].clone());
        i += 1;
    }
    assert(items.deep_view().take(items.len() as int) =~= items.deep_view());
}

/// The values present in the first column of `rows`, in order.
pub fn first_values(rows: &Vec<Vec<Option<String>>>) -> (r: Vec<String>)
    ensures
        r.deep_view() == present(first_column(rows.deep_view())),
{
    let mut out: Vec<String> = Vec::new();
    let mut i: usize = 0;
    while i < rows.len()
        invariant
            i <= rows.len(),
            out.deep_view() == present(first_column(rows.deep_view()).take(i as int)),
        decreases rows.len() - i,
    {
        let ghost before = out.deep_view();
        let ghost col = first_column(rows.deep_view());
        assert(col.take(i + 1).drop_last() =~= col.take(i as int));
        assert(rows.deep_view()[i as int] == rows[i as int].deep_view());
        if rows[i].len() > 0 {
            assert(col[i as int] == rows[i as int]@[0].deep_view());
            match &rows[i][0] {
                Some(v) => {
                    out.push(v.clone());
                    assert(out.deep_view() =~= before.push(v@));
                },
                None => {},
            }
        }
        i += 1;
    }
    assert(first_column(rows.deep_view()).take(rows.len() as int) =~= first_column(
        rows.deep_view(),
    ));
    out
}

/// The distinct `http`-prefixed values of `hrefs`, in order of first occurrence.
pub fn collect_links(hrefs: &Vec<String>) -> (r: Vec<String>)
    ensures
        r.deep_view() == distinct(absolute_links(hrefs.deep_view())),
{
    let mut out: Vec<String> = Vec::new();
    let mut i: usize = 0;
    assert(out.deep_view() =~= seq![]);
    while i < hrefs.len()
        invariant
            i <= hrefs.len(),
            out.deep_view() == distinct(absolute_links(hrefs.deep_view().take(i as int))),
        decreases hrefs.len() - i,
    {
        let ghost items = hrefs.deep_view().take(i + 1);
        assert(items.drop_last() =~= hrefs.deep_view().take(i as int));
        assert(items.last() == hrefs[i as int]@);
        proof {
            reveal_strlit("http");
            assert("http"@ =~= http_prefix());
        }
        let ghost prev = absolute_links(hrefs.deep_view().take(i as int));
        if str_starts_with(hrefs[i].as_str(), "http") {
            assert(prev.push(hrefs[i as int]@).drop_last() =~= prev);
            insert_unique(&mut out, hrefs[i].clone());
        }
        i += 1;
    }
    assert(hrefs.deep_view().take(hrefs.len() as int) =~= hrefs.deep_view());
    out
}

/// The distinct matches that count as API endpoints, in order of first occurrence.
pub fn collect_api_endpoints(matches: &Vec<String>) -> (r: Vec<String>)
    ensures
        r.deep_view() == distinct(endpoints(matches.deep_view())),
{
    let mut out: Vec<String> = Vec::new();
    let mut i: usize = 0;
    assert(out.deep_view() =~= seq![]);
    while i < matches.len()
        invariant
            i <= matches.len(),
            out.deep_view() == distinct(endpoints(matches.deep_view().take(i as int))),
        decreases matches.len() - i,
    {
        let ghost items = matches.deep_view().take(i + 1);
        assert(items.drop_last() =~= matches.deep_view().take(i as int));
        assert(items.last() == matches[i as int]@);
        let m = matches[i].as_str();
        proof {
            reveal_strlit("://");
            assert("://"@ =~= scheme_sep());
        }
        let ghost prev = endpoints(matches.deep_view().take(i as int));
        if m.unicode_len() > 4 && !str_contains(m, "://") {
            assert(prev.push(matches[i as int]@).drop_last() =~= prev);
            insert_unique(&mut out, matches[i].clone());
        }
        i += 1;
    }
    assert(matches.deep_view().take(matches.len() as int) =~= matches.deep_view());
    out
}

/// The trimmed, non-empty comment bodies, in order, repeats kept.
pub fn collect_comments(groups: &Vec<Option<String>>) -> (r: Vec<String>)
    ensures
        r.deep_view() == comment_bodies(groups.deep_view()),
{
    let mut out: Vec<String> = Vec::new();
    let mut i: usize = 0;
    while i < groups.len()
        invariant
            i <= groups.len(),
            out.deep_view() == comment_bodies(groups.deep_view().take(i as int)),
        decreases groups.len() - i,
    {
        let ghost items = groups.deep_view().take(i + 1);
        let ghost before = out.deep_view();
        assert(items.drop_last() =~= groups.deep_view().take(i as int));
        assert(items.last() == groups[i as int].deep_view());
        match &groups[i] {
            Some(g) => {
                let t = str_trim(g.as_str());
                if t.as_str().unicode_len() > 0 {
                    out.push(t);
                    assert(out.deep_view() =~= before.push(crate::text::trim(g@)));
                }
            },
            None => {},
        }
        i += 1;
    }
    assert(groups.deep_view().take(groups.len() as int) =~= groups.deep_view());
    out
}

/// `name: content` for each row whose first two values are both present and
/// non-empty, in order.
pub fn collect_meta(rows: &Vec<Vec<Option<String>>>) -> (r: Vec<String>)
    ensures
        r.deep_view() == meta_entries(rows.deep_view()),
{
    let mut out: Vec<String> = Vec::new();
    let mut i: usize = 0;
    while i < rows.len()
        invariant
            i <= rows.len(),
            out.deep_view() == meta_entries(rows.deep_view().take(i as int)),
        decreases rows.len() - i,
    {
        let ghost items = rows.deep_view().take(i + 1);
        let ghost before = out.deep_view();
        assert(items.drop_last() =~= rows.deep_view().take(i as int));
        assert(items.last() == rows[i as int].deep_view());
        if rows[i].len() < 2 {
            i += 1;
            continue;
        }
        assert(rows[i as int].deep_view()[0] == rows[i as int]@[0].deep_view());
        assert(rows[i as int].deep_view()[1] == rows[i as int]@[1].deep_view());
        match (&rows[i][0], &rows[i][1]) {
            (Some(n), Some(c)) => {
                if n.as_str().unicode_len() > 0 && c.as_str().unicode_len() > 0 {
                    proof {
                        reveal_strlit(": ");
                        assert(": "@ =~= meta_sep());
                    }
                    let mut e = n.clone();
                    e.append(": ");
                    assert(e@ == n@ + meta_sep());
                    e.append(c.as_str());
                    assert(e@ == n@ + meta_sep() + c@);
                    out.push(e);
                    assert(out.deep_view() =~= before.push(n@ + meta_sep() + c@));
                }
            },
            _ => {},
        }
        i += 1;
    }
    assert(rows.deep_view().take(rows.len() as int) =~= rows.deep_view());
    out
}

/// The keywords whose lower-case form (`lowered`, index for index) occurs in
/// `text_lower`, without repeats, in keyword order.
pub fn detect_technologies(text_lower: &str, keywords: &Vec<String>, lowered: &Vec<String>) -> (r:
    Vec<String>)
    requires
        lowered.len() == keywords.len(),
    ensures
        r.deep_view() == distinct(tech_hits(text_lower@, keywords.deep_view(), lowered.deep_view())),
{
    let mut out: Vec<String> = Vec::new();
    let mut i: usize = 0;
    assert(out.deep_view() =~= seq![]);
    while i < keywords.len()
        invariant
            i <= keywords.len(),
            lowered.len() == keywords.len(),
            out.deep_view() == distinct(
                tech_hits(text_lower@, keywords.deep_view().take(i as int), lowered.deep_view()),
            ),
        decreases keywords.len() - i,
    {
        let ghost ks = keywords.deep_view().take(i + 1);
        assert(ks.drop_last() =~= keywords.deep_view().take(i as int));
        assert(ks.last() == keywords[i as int]@);
        assert(lowered.deep_view()[i as int] == lowered[i as int]@);
        let ghost prev = tech_hits(text_lower@, keywords.deep_view().take(i as int), lowered.deep_view());
        if str_contains(text_lower, lowered[i].as_str()) {
            assert(prev.push(keywords[i as int]@).drop_last() =~= prev);
            insert_unique(&mut out, keywords[i].clone());
        }
        i += 1;
    }
    assert(keywords.deep_view().take(keywords.len() as int) =~= keywords.deep_view());
    out
}

/// An email address.
pub const EMAIL_PATTERN: &'static str = r"[a-zA-Z0-9._%+-]+@[a-zA-Z0-9.-]+\.[a-zA-Z]{2,}";

/// An HTML comment; group 1 is its body.
pub const COMMENT_PATTERN: &'static str = r"(?s)<!--(.*?)-->";

/// A path with a segment that suggests an API.
pub const API_PATTERN: &'static str = r"/(api|gen_204|client_204|log|og/_/js|_/js|_/ss|graphql|rest)/[^?\s\'<>]*";

pub const SCRIPT_SELECTOR: &'static str = "script[src]";

pub const STYLESHEET_SELECTOR: &'static str = "link[rel='stylesheet'][href]";

pub const ANCHOR_SELECTOR: &'static str = "a[href]";

pub const META_SELECTOR: &'static str = "meta[name][content]";

pub const DATA_SRC_SELECTOR: &'static str = "[data-src]";

/// Why an extractor could not be built.
#[derive(Debug, Clone, Copy, PartialEq, Eq)]
pub enum ScanError {
    /// One of the fixed regular expressions did not compile.
    InvalidPattern,
    /// One of the fixed CSS selectors did not parse.
    InvalidSelector,
}

/// Whether every fixed pattern compiles and every fixed selector parses: the
/// only condition on which building the extraction engine depends.
pub open spec fn engine_compiles() -> bool {
    &&& regex_compiles(EMAIL_PATTERN@)
    &&& regex_compiles(COMMENT_PATTERN@)
    &&& regex_compiles(API_PATTERN@)
    &&& selector_parses(SCRIPT_SELECTOR@)
    &&& selector_parses(STYLESHEET_SELECTOR@)
    &&& selector_parses(ANCHOR_SELECTOR@)
    &&& selector_parses(META_SELECTOR@)
    &&& selector_parses(DATA_SRC_SELECTOR@)
}

/// The values of `attr` on the elements that `selector` matches, in the order
/// the parser created the elements.
pub open spec fn values_of(content: Seq<char>, selector: Seq<char>, attr: Seq<char>) -> Seq<Seq<char>> {
    present(first_column(selected_attrs(content, selector, seq![attr])))
}

/// The lower-case forms of the keywords, index for index.
pub open spec fn lowered_keywords(keywords: Seq<Seq<char>>) -> Seq<Seq<char>> {
    keywords.map_values(|k: Seq<char>| lower_of(k))
}

/// The record that the extraction engine produces for the document `content`
/// with the technology keywords `keywords`.
pub open spec fn intel_of(content: Seq<char>, keywords: Seq<Seq<char>>) -> IntelView {
    IntelView {
        webserver: seq![],
        technologies: distinct(
            tech_hits(lower_of(html_text(content)), keywords, lowered_keywords(keywords)),
        ),
        emails: distinct(regex_find_all(EMAIL_PATTERN@, content)),
        scripts: dedup_extend(
            dedup_extend(
                distinct(values_of(content, SCRIPT_SELECTOR@, "src"@)),
                values_of(content, STYLESHEET_SELECTOR@, "href"@),
            ),
            values_of(content, DATA_SRC_SELECTOR@, "data-src"@),
        ),
        comments: comment_bodies(regex_group_all(COMMENT_PATTERN@, content, 1)),
        meta_tags: meta_entries(selected_attrs(content, META_SELECTOR@, seq!["name"@, "content"@])),
        links: distinct(absolute_links(values_of(content, ANCHOR_SELECTOR@, "href"@))),
        api_endpoints: distinct(endpoints(regex_find_all(API_PATTERN@, content))),
    }
}

/// The fixed list of technology keywords.
pub open spec fn tech_keywords_spec() -> Seq<Seq<char>> {
    seq![
        "google"@, "gws"@, "nginx"@, "apache"@, "react"@, "angular"@, "vue.js"@, "webpack"@,
        "jquery"@, "adservice"@, "gstatic"@, "googlesyndication"@, "analytics"@, "gtag"@,
        "closure library"@, "trustedtypes"@, "gapi"@, "material"@, "lit"@, "polymer"@,
        "bootstrap"@, "font awesome"@,
    ]
}

/// The fixed list of technology keywords, in the order they are tested.
pub fn tech_keywords() -> (r: Vec<String>)
    ensures
        r.deep_view() == tech_keywords_spec(),
{
    let mut r: Vec<String> = Vec::new();
    r.push(String::from_str("google"));
    r.push(String::from_str("gws"));
    r.push(String::from_str("nginx"));
    r.push(String::from_str("apache"));
    r.push(String::from_str("react"));
    r.push(String::from_str("angular"));
    r.push(String::from_str("vue.js"));
    r.push(String::from_str("webpack"));
    r.push(String::from_str("jquery"));
    r.push(String::from_str("adservice"));
    r.push(String::from_str("gstatic"));
    r.push(String::from_str("googlesyndication"));
    r.push(String::from_str("analytics"));
    r.push(String::from_str("gtag"));
    r.push(String::from_str("closure library"));
    r.push(String::from_str("trustedtypes"));
    r.push(String::from_str("gapi"));
    r.push(String::from_str("material"));
    r.push(String::from_str("lit"));
    r.push(String::from_str("polymer"));
    r.push(String::from_str("bootstrap"));
    r.push(String::from_str("font awesome"));
    assert(r.deep_view() =~= tech_keywords_spec());
    r
}

/// A one-element list of attribute names.
fn attr_names(a: &str) -> (r: Vec<String>)
    ensures
        r.deep_view() == seq![a@],
{
    let mut r: Vec<String> = Vec::new();
    r.push(String::from_str(a));
    assert(r.deep_view() =~= seq![a@]);
    r
}

/// The compiled patterns and selectors of the extraction engine, with its
/// technology keywords.
pub struct Extractor {
    email: Pattern,
    comment: Pattern,
    api: Pattern,
    scripts: Query,
    stylesheets: Query,
    anchors: Query,
    metas: Query,
    data_src: Query,
    keywords: Vec<String>,
    lowered: Vec<String>,
}

impl Extractor {
    /// Each pattern and selector was compiled from its constant, and `lowered`
    /// holds the lower-case form of each keyword.
    pub closed spec fn wf(&self) -> bool {
        &&& self.email.source() == EMAIL_PATTERN@
        &&& self.comment.source() == COMMENT_PATTERN@
        &&& self.api.source() == API_PATTERN@
        &&& self.scripts.source() == SCRIPT_SELECTOR@
        &&& self.stylesheets.source() == STYLESHEET_SELECTOR@
        &&& self.anchors.source() == ANCHOR_SELECTOR@
        &&& self.metas.source() == META_SELECTOR@
        &&& self.data_src.source() == DATA_SRC_SELECTOR@
        &&& self.lowered.len() == self.keywords.len()
        &&& self.lowered.deep_view() == lowered_keywords(self.keywords.deep_view())
    }

    /// The technology keywords the extractor tests.
    pub closed spec fn keywords(&self) -> Seq<Seq<char>> {
        self.keywords.deep_view()
    }

    /// Compiles the fixed patterns and selectors; `keywords` are the
    /// technologies to look for.
    pub fn new(keywords: Vec<String>) -> (r: Result<Extractor, ScanError>)
        ensures
            r matches Ok(e) ==> e.wf() && e.keywords() == keywords.deep_view(),
            r is Ok <==> engine_compiles(),
    {
        let email = match compile_pattern(EMAIL_PATTERN) {
            Some(p) => p,
            None => return Err(ScanError::InvalidPattern),
        };
        let comment = match compile_pattern(COMMENT_PATTERN) {
            Some(p) => p,
            None => return Err(ScanError::InvalidPattern),
        };
        let api = match compile_pattern(API_PATTERN) {
            Some(p) => p,
            None => return Err(ScanError::InvalidPattern),
        };
        let scripts = match compile_query(SCRIPT_SELECTOR) {
            Some(q) => q,
            None => return Err(ScanError::InvalidSelector),
        };
        let stylesheets = match compile_query(STYLESHEET_SELECTOR) {
            Some(q) => q,
            None => return Err(ScanError::InvalidSelector),
        };
        let anchors = match compile_query(ANCHOR_SELECTOR) {
            Some(q) => q,
            None => return Err(ScanError::InvalidSelector),
        };
        let metas = match compile_query(META_SELECTOR) {
            Some(q) => q,
            None => return Err(ScanError::InvalidSelector),
        };
        let data_src = match compile_query(DATA_SRC_SELECTOR) {
            Some(q) => q,
            None => return Err(ScanError::InvalidSelector),
        };
        let mut lowered: Vec<String> = Vec::new();
        let mut i: usize = 0;
        while i < keywords.len()
            invariant
                i <= keywords.len(),
                lowered.len() == i,
                lowered.deep_view() == lowered_keywords(keywords.deep_view()).take(i as int),
            decreases keywords.len() - i,
        {
            let ghost before = lowered.deep_view();
            let l = lowercase(keywords[i].as_str());
            lowered.push(l);
            assert(lowered.deep_view() =~= before.push(lower_of(keywords[i as int]@)));
            assert(lowered_keywords(keywords.deep_view()).take(i + 1) =~= lowered_keywords(
                keywords.deep_view(),
            ).take(i as int).push(lower_of(keywords[i as int]@)));
            i += 1;
        }
        assert(lowered_keywords(keywords.deep_view()).take(keywords.len() as int)
            =~= lowered_keywords(keywords.deep_view()));
        Ok(Extractor {
            email,
            comment,
            api,
            scripts,
            stylesheets,
            anchors,
            metas,
            data_src,
            keywords,
            lowered,
        })
    }

    /// The present values of `attr` on the elements that `q` selects.
    fn attr_values(doc: &Document, q: &Query, attr: &str) -> (r: Vec<String>)
        ensures
            r.deep_view() == values_of(doc.source(), q.source(), attr@),
    {
        let names = attr_names(attr);
        let rows = select_attrs(doc, q, &names);
        first_values(&rows)
    }

    /// The intelligence record of one document's text.
    pub fn extract(&self, text: &str) -> (r: ScannerInfos)
        requires
            self.wf(),
        ensures
            r@ == intel_of(text@, self.keywords()),
            r@.wf(),
    {
        proof {
            lemma_intel_wf(text@, self.keywords());
        }
        let parsed = parse_document(text);
        let doc = &parsed;
        let content = doc.source_text();
        let mut info = ScannerInfos::new();

        let srcs = Extractor::attr_values(doc, &self.scripts, "src");
        insert_all(&mut info.scripts, &srcs);
        let sheets = Extractor::attr_values(doc, &self.stylesheets, "href");
        insert_all(&mut info.scripts, &sheets);

        let hrefs = Extractor::attr_values(doc, &self.anchors, "href");
        info.links = collect_links(&hrefs);

        let mut names: Vec<String> = Vec::new();
        names.push(String::from_str("name"));
        names.push(String::from_str("content"));
        assert(names.deep_view() =~= seq!["name"@, "content"@]);
        let rows = select_attrs(doc, &self.metas, &names);
        info.meta_tags = collect_meta(&rows);

        let text = visible_text(doc);
        let text_lower = lowercase(text.as_str());
        info.technologies = detect_technologies(text_lower.as_str(), &self.keywords, &self.lowered);

        let emails = find_all(&self.email, content);
        insert_all(&mut info.emails, &emails);

        let groups = group_all(&self.comment, content, 1);
        info.comments = collect_comments(&groups);

        let apis = find_all(&self.api, content);
        info.api_endpoints = collect_api_endpoints(&apis);

        let data = Extractor::attr_values(doc, &self.data_src, "data-src");
        insert_all(&mut info.scripts, &data);
        info
    }

    /// The record of every document, in order, united by `merge_into`.
    pub fn scan_all(&self, documents: &Vec<String>) -> (r: ScannerInfos)
        requires
            self.wf(),
        ensures
            r@ == aggregate_view(documents.deep_view(), self.keywords()),
            r@.wf(),
    {
        proof {
            lemma_aggregate_wf(documents.deep_view(), self.keywords());
        }
        let mut acc = ScannerInfos::new();
        let mut i: usize = 0;
        while i < documents.len()
            invariant
                self.wf(),
                i <= documents.len(),
                acc@ == aggregate_view(documents.deep_view().take(i as int), self.keywords()),
            decreases documents.len() - i,
        {
            let ghost ds = documents.deep_view().take(i + 1);
            assert(ds.drop_last() =~= documents.deep_view().take(i as int));
            assert(ds.last() == documents[i as int]@);
            let info = self.extract(documents[i].as_str());
            merge_into(&mut acc, &info);
            i += 1;
        }
        assert(documents.deep_view().take(documents.len() as int) =~= documents.deep_view());
        acc
    }
}

/// The intelligence record of one document's text, with the fixed technology
/// keywords. Whether it succeeds does not depend on the text: malformed markup
/// never makes it fail; only a fixed pattern or selector that does not compile
/// does.
pub fn scan_for_information(content: &str) -> (r: Result<ScannerInfos, ScanError>)
    ensures
        r matches Ok(info) ==> info@ == intel_of(content@, tech_keywords_spec()) && info@.wf(),
        r is Ok <==> engine_compiles(),
{
    let ex = Extractor::new(tech_keywords())?;
    Ok(ex.extract(content))
}

/// The union of the records of all documents, in order, with the fixed
/// technology keywords. Fails only when a fixed pattern or selector does not
/// compile.
pub fn scan_all_html_files(documents: &Vec<String>) -> (r: Result<ScannerInfos, ScanError>)
    ensures
        r matches Ok(info) ==> info@ == aggregate_view(documents.deep_view(), tech_keywords_spec())
            && info@.wf(),
        r is Ok <==> engine_compiles(),
{
    let ex = Extractor::new(tech_keywords())?;
    Ok(ex.scan_all(documents))
}

/// `a` and `b` united: set fields as sets, list fields concatenated.
pub open spec fn merge_view(a: IntelView, b: IntelView) -> IntelView {
    IntelView {
        webserver: a.webserver + b.webserver,
        technologies: dedup_extend(a.technologies, b.technologies),
        emails: dedup_extend(a.emails, b.emails),
        scripts: dedup_extend(a.scripts, b.scripts),
        comments: a.comments + b.comments,
        meta_tags: a.meta_tags + b.meta_tags,
        links: dedup_extend(a.links, b.links),
        api_endpoints: dedup_extend(a.api_endpoints, b.api_endpoints),
    }
}

/// The union of the records of `documents`, merged in order into an empty record.
pub open spec fn aggregate_view(documents: Seq<Seq<char>>, keywords: Seq<Seq<char>>) -> IntelView
    decreases documents.len(),
{
    if documents.len() == 0 {
        empty_view()
    } else {
        merge_view(
            aggregate_view(documents.drop_last(), keywords),
            intel_of(documents.last(), keywords),
        )
    }
}

/// Appends the strings of `items` to the list `list`.
fn extend_list(list: &mut Vec<String>, items: &Vec<String>)
    ensures
        final(list).deep_view() == old(list).deep_view() + items.deep_view(),
{
    let ghost start = list.deep_view();
    let mut i: usize = 0;
    while i < items.len()
        invariant
            i <= items.len(),
            list.deep_view() == start + items.deep_view().take(i as int),
        decreases items.len() - i,
    {
        let ghost before = list.deep_view();
        list.push(items[i].clone());
        assert(list.deep_view() =~= before.push(items[i as int]@));
        assert(items.deep_view().take(i + 1) =~= items.deep_view().take(i as int).push(
            items[i as int]@,
        ));
        i += 1;
    }
    assert(items.deep_view().take(items.len() as int) =~= items.deep_view());
}

/// Adds the record `info` to the accumulator `acc`: each set field gains the
/// strings it lacks, each list field is extended.
pub fn merge_into(acc: &mut ScannerInfos, info: &ScannerInfos)
    ensures
        final(acc)@ == merge_view(old(acc)@, info@),
        old(acc)@.wf() ==> final(acc)@.wf(),
{
    proof {
        if acc@.wf() {
            lemma_merge(acc@, info@);
        }
    }
    insert_all(&mut acc.technologies, &info.technologies);
    insert_all(&mut acc.emails, &info.emails);
    insert_all(&mut acc.scripts, &info.scripts);
    extend_list(&mut acc.comments, &info.comments);
    extend_list(&mut acc.meta_tags, &info.meta_tags);
    insert_all(&mut acc.links, &info.links);
    insert_all(&mut acc.api_endpoints, &info.api_endpoints);
    extend_list(&mut acc.webserver, &info.webserver);
}

/// Each string of `s` occurs in it exactly once.
pub open spec fn each_once(s: Seq<Seq<char>>) -> bool {
    forall|x: Seq<char>| s.contains(x) ==> #[trigger] s.to_multiset().count(x) == 1
}

/// Adding strings to a set keeps it free of repeats, and it then holds exactly
/// what it held before and what was added.
pub proof fn lemma_dedup_extend(acc: Seq<Seq<char>>, items: Seq<Seq<char>>)
    requires
        acc.no_duplicates(),
    ensures
        dedup_extend(acc, items).no_duplicates(),
        forall|x: Seq<char>| #[trigger]
            dedup_extend(acc, items).contains(x) <==> acc.contains(x) || items.contains(x),
    decreases items.len(),
{
    if items.len() > 0 {
        let prev = items.drop_last();
        lemma_dedup_extend(acc, prev);
        let a = dedup_extend(acc, prev);
        assert forall|x: Seq<char>| items.contains(x) <==> prev.contains(x) || x == items.last() by {
            if items.contains(x) {
                let j = choose|j: int| 0 <= j < items.len() && items[j] == x;
                if j < items.len() - 1 {
                    assert(prev[j] == x);
                }
            }
            if prev.contains(x) {
                let j = choose|j: int| 0 <= j < prev.len() && prev[j] == x;
                assert(items[j] == x);
            }
            if x == items.last() {
                assert(items[items.len() - 1] == x);
            }
        }
        if !a.contains(items.last()) {
            let r = a.push(items.last());
            assert forall|x: Seq<char>| r.contains(x) <==> a.contains(x) || x == items.last() by {
                if r.contains(x) {
                    let j = choose|j: int| 0 <= j < r.len() && r[j] == x;
                    if j < a.len() {
                        assert(a[j] == x);
                    }
                }
                if a.contains(x) {
                    let j = choose|j: int| 0 <= j < a.len() && a[j] == x;
                    assert(r[j] == x);
                }
                if x == items.last() {
                    assert(r[a.len() as int] == x);
                }
            }
        }
    }
}

/// A sequence without repeats holds each of its strings exactly once.
pub proof fn lemma_each_once(s: Seq<Seq<char>>)
    requires
        s.no_duplicates(),
    ensures
        each_once(s),
{
    s.lemma_multiset_has_no_duplicates();
    assert forall|x: Seq<char>| s.contains(x) implies #[trigger] s.to_multiset().count(x) == 1 by {
        s.to_multiset_ensures();
    }
}

/// Uniting two records: each set field holds, exactly once, every string that
/// either record's field holds, and nothing else; each list field is the first
/// record's list followed by the second's, repeats kept.
pub proof fn lemma_merge(a: IntelView, b: IntelView)
    requires
        a.wf(),
    ensures
        merge_view(a, b).wf(),
        each_once(merge_view(a, b).technologies),
        each_once(merge_view(a, b).emails),
        each_once(merge_view(a, b).scripts),
        each_once(merge_view(a, b).links),
        each_once(merge_view(a, b).api_endpoints),
        forall|x: Seq<char>| #[trigger]
            merge_view(a, b).technologies.contains(x) <==> a.technologies.contains(x)
                || b.technologies.contains(x),
        forall|x: Seq<char>| #[trigger]
            merge_view(a, b).emails.contains(x) <==> a.emails.contains(x) || b.emails.contains(x),
        forall|x: Seq<char>| #[trigger]
            merge_view(a, b).scripts.contains(x) <==> a.scripts.contains(x) || b.scripts.contains(
                x,
            ),
        forall|x: Seq<char>| #[trigger]
            merge_view(a, b).links.contains(x) <==> a.links.contains(x) || b.links.contains(x),
        forall|x: Seq<char>| #[trigger]
            merge_view(a, b).api_endpoints.contains(x) <==> a.api_endpoints.contains(x)
                || b.api_endpoints.contains(x),
        merge_view(a, b).comments == a.comments + b.comments,
        merge_view(a, b).meta_tags == a.meta_tags + b.meta_tags,
        merge_view(a, b).webserver == a.webserver + b.webserver,
{
    let m = merge_view(a, b);
    lemma_dedup_extend(a.technologies, b.technologies);
    lemma_dedup_extend(a.emails, b.emails);
    lemma_dedup_extend(a.scripts, b.scripts);
    lemma_dedup_extend(a.links, b.links);
    lemma_dedup_extend(a.api_endpoints, b.api_endpoints);
    lemma_each_once(m.technologies);
    lemma_each_once(m.emails);
    lemma_each_once(m.scripts);
    lemma_each_once(m.links);
    lemma_each_once(m.api_endpoints);
}

/// The record of one document never repeats a string in a set field, and its
/// `webserver` list is empty.
pub proof fn lemma_intel_wf(content: Seq<char>, keywords: Seq<Seq<char>>)
    ensures
        intel_of(content, keywords).wf(),
        intel_of(content, keywords).webserver.len() == 0,
{
    let e = Seq::<Seq<char>>::empty();
    let i = intel_of(content, keywords);
    lemma_dedup_extend(e, tech_hits(lower_of(html_text(content)), keywords, lowered_keywords(keywords)));
    lemma_dedup_extend(e, regex_find_all(EMAIL_PATTERN@, content));
    let s0 = values_of(content, SCRIPT_SELECTOR@, "src"@);
    let s1 = values_of(content, STYLESHEET_SELECTOR@, "href"@);
    let s2 = values_of(content, DATA_SRC_SELECTOR@, "data-src"@);
    lemma_dedup_extend(e, s0);
    lemma_dedup_extend(distinct(s0), s1);
    lemma_dedup_extend(dedup_extend(distinct(s0), s1), s2);
    lemma_dedup_extend(e, absolute_links(values_of(content, ANCHOR_SELECTOR@, "href"@)));
    lemma_dedup_extend(e, endpoints(regex_find_all(API_PATTERN@, content)));
}

/// The union of any number of documents' records never repeats a string in a
/// set field, so each string there occurs exactly once, and its `webserver`
/// list stays empty.
pub proof fn lemma_aggregate_wf(documents: Seq<Seq<char>>, keywords: Seq<Seq<char>>)
    ensures
        aggregate_view(documents, keywords).wf(),
        each_once(aggregate_view(documents, keywords).technologies),
        each_once(aggregate_view(documents, keywords).emails),
        each_once(aggregate_view(documents, keywords).scripts),
        each_once(aggregate_view(documents, keywords).links),
        each_once(aggregate_view(documents, keywords).api_endpoints),
        aggregate_view(documents, keywords).webserver.len() == 0,
    decreases documents.len(),
{
    let g = aggregate_view(documents, keywords);
    if documents.len() == 0 {
        assert(g.technologies.no_duplicates());
    } else {
        lemma_aggregate_wf(documents.drop_last(), keywords);
        lemma_intel_wf(documents.last(), keywords);
        lemma_merge(aggregate_view(documents.drop_last(), keywords), intel_of(documents.last(), keywords));
    }
    lemma_each_once(g.technologies);
    lemma_each_once(g.emails);
    lemma_each_once(g.scripts);
    lemma_each_once(g.links);
    lemma_each_once(g.api_endpoints);
}

/// The two-document sequence `[d1, d2]`.
pub open spec fn two_documents(d1: Seq<char>, d2: Seq<char>) -> Seq<Seq<char>> {
    seq![d1, d2]
}

/// Uniting two documents: the comments are those of the first followed by those
/// of the second, repeats kept, and a technology is listed when either lists it.
pub proof fn lemma_union_of_two_documents(d1: Seq<char>, d2: Seq<char>, keywords: Seq<Seq<char>>)
    ensures
        aggregate_view(two_documents(d1, d2), keywords).comments == intel_of(d1, keywords).comments
            + intel_of(d2, keywords).comments,
        forall|x: Seq<char>| #[trigger]
            aggregate_view(two_documents(d1, d2), keywords).technologies.contains(x) <==> intel_of(
                d1,
                keywords,
            ).technologies.contains(x) || intel_of(d2, keywords).technologies.contains(x),
{
    let ds = two_documents(d1, d2);
    let one = seq![d1];
    assert(ds.drop_last() =~= one);
    assert(ds.last() == d2);
    assert(one.drop_last() =~= Seq::<Seq<char>>::empty());
    assert(one.last() == d1);
    let i1 = intel_of(d1, keywords);
    let a0 = aggregate_view(one, keywords);
    assert(aggregate_view(Seq::<Seq<char>>::empty(), keywords) == empty_view());
    assert(aggregate_view(one.drop_last(), keywords) == empty_view());
    assert(a0 == merge_view(empty_view(), i1));
    assert(empty_view().comments + i1.comments =~= i1.comments);
    lemma_dedup_extend(Seq::<Seq<char>>::empty(), i1.technologies);
    lemma_aggregate_wf(one, keywords);
    lemma_merge(a0, intel_of(d2, keywords));
}

/// Uniting two documents that both list the technology `x` and both hold the
/// single comment `c`: `x` is listed exactly once, `c` appears twice.
pub proof fn lemma_union_sets_once_lists_twice(
    d1: Seq<char>,
    d2: Seq<char>,
    keywords: Seq<Seq<char>>,
    x: Seq<char>,
    c: Seq<char>,
)
    requires
        intel_of(d1, keywords).technologies.contains(x),
        intel_of(d2, keywords).technologies.contains(x),
        intel_of(d1, keywords).comments == seq![c],
        intel_of(d2, keywords).comments == seq![c],
    ensures
        aggregate_view(two_documents(d1, d2), keywords).technologies.to_multiset().count(x) == 1,
        aggregate_view(two_documents(d1, d2), keywords).comments == seq![c, c],
{
    lemma_union_of_two_documents(d1, d2, keywords);
    lemma_aggregate_wf(two_documents(d1, d2), keywords);
    let g = aggregate_view(two_documents(d1, d2), keywords);
    assert(g.technologies.contains(x));
    assert(seq![c] + seq![c] =~= seq![c, c]);
}

} // verus!
