//! The lenient HTML parser (scraper) and the pattern matcher (regex) that the
//! extraction engine reads documents with. Each result is named by a spec
//! function of the inputs it depends on.
use vstd::prelude::*;

verus! {

#[verifier::external_type_specification]
#[verifier::external_body]
pub struct ExHtml(scraper::Html);

#[verifier::external_type_specification]
#[verifier::external_body]
pub struct ExSelector(scraper::Selector);

#[verifier::external_type_specification]
#[verifier::external_body]
pub struct ExRegex(regex::Regex);

/// The texts of the successive non-overlapping leftmost-first matches of
/// `pattern` in `text`.
pub uninterp spec fn regex_find_all(pattern: Seq<char>, text: Seq<char>) -> Seq<Seq<char>>;

/// For each successive match of `pattern` in `text`, the text of capture group
/// `group`, if that group took part in the match.
pub uninterp spec fn regex_group_all(pattern: Seq<char>, text: Seq<char>, group: nat) -> Seq<
    Option<Seq<char>>,
>;

/// For each element of the document parsed from `html` that the CSS selector
/// `selector` matches, in the order the parser created the elements, the value
/// of each attribute named in `attrs`.
pub uninterp spec fn selected_attrs(
    html: Seq<char>,
    selector: Seq<char>,
    attrs: Seq<Seq<char>>,
) -> Seq<Seq<Option<Seq<char>>>>;

/// The concatenated text nodes under the root element of the document parsed
/// from `html`.
pub uninterp spec fn html_text(html: Seq<char>) -> Seq<char>;

/// Whether `pattern` is accepted by the regular-expression compiler.
pub uninterp spec fn regex_compiles(pattern: Seq<char>) -> bool;

/// Whether `selector` is accepted by the CSS selector parser.
pub uninterp spec fn selector_parses(selector: Seq<char>) -> bool;

/// The Unicode lower-case mapping of `s`.
pub uninterp spec fn lower_of(s: Seq<char>) -> Seq<char>;

/// A compiled regular expression together with its source text.
pub struct Pattern {
    source: String,
    re: regex::Regex,
}

impl Pattern {
    /// The source text the pattern was compiled from.
    pub closed spec fn source(&self) -> Seq<char> {
        self.source@
    }
}

/// A compiled CSS selector together with its source text.
pub struct Query {
    source: String,
    sel: scraper::Selector,
}

impl Query {
    /// The source text the selector was parsed from.
    pub closed spec fn source(&self) -> Seq<char> {
        self.source@
    }
}

/// A parsed HTML document together with the text it was parsed from.
pub struct Document {
    source: String,
    html: scraper::Html,
}

impl Document {
    /// The text the document was parsed from.
    pub closed spec fn source(&self) -> Seq<char> {
        self.source@
    }

    /// The text the document was parsed from.
    pub fn source_text(&self) -> (r: &str)
        ensures
            r@ == self.source(),
    {
        self.source.as_str()
    }
}

/// Relies on `regex::Regex::new`: compiles `pattern`, or fails on a syntax
/// error or a size limit.
#[verifier::external_body]
pub(crate) fn compile_pattern(pattern: &str) -> (r: Option<Pattern>)
    ensures
        r matches Some(p) ==> p.source() == pattern@,
        r is Some <==> regex_compiles(pattern@),
{
    match regex::Regex::new(pattern) {
        Ok(re) => Some(Pattern { source: pattern.to_string(), re }),
        Err(_) => None,
    }
}

/// Relies on `regex::Regex::find_iter`: the text of every successive match.
#[verifier::external_body]
pub(crate) fn find_all(p: &Pattern, text: &str) -> (r: Vec<String>)
    ensures
        r.deep_view() == regex_find_all(p.source(), text@),
{
    p.re.find_iter(text).map(|m| m.as_str().to_string()).collect()
}

/// Relies on `regex::Regex::captures_iter`: for every successive match, the text
/// of capture group `group`, if it took part.
#[verifier::external_body]
pub(crate) fn group_all(p: &Pattern, text: &str, group: usize) -> (r: Vec<Option<String>>)
    ensures
        r.deep_view() == regex_group_all(p.source(), text@, group as nat),
{
    p.re.captures_iter(text).map(|c| c.get(group).map(|m| m.as_str().to_string())).collect()
}

/// Relies on `scraper::Selector::parse`: parses a CSS selector group, or fails
/// on invalid syntax.
#[verifier::external_body]
pub(crate) fn compile_query(selector: &str) -> (r: Option<Query>)
    ensures
        r matches Some(q) ==> q.source() == selector@,
        r is Some <==> selector_parses(selector@),
{
    match scraper::Selector::parse(selector) {
        Ok(sel) => Some(Query { source: selector.to_string(), sel }),
        Err(_) => None,
    }
}

/// Relies on `scraper::Html::parse_document`: an HTML5 parse that never fails;
/// malformed markup yields a partial tree.
#[verifier::external_body]
pub(crate) fn parse_document(content: &str) -> (d: Document)
    ensures
        d.source() == content@,
{
    Document { source: content.to_string(), html: scraper::Html::parse_document(content) }
}

/// Relies on `scraper::Html::select` and `ElementRef::attr`: for every matching
/// element, in the order the parser created the elements, the value of each of
/// `attrs`.
#[verifier::external_body]
pub(crate) fn select_attrs(doc: &Document, q: &Query, attrs: &Vec<String>) -> (r: Vec<Vec<Option<String>>>)
    ensures
        r.deep_view() == selected_attrs(doc.source(), q.source(), attrs.deep_view()),
{
    doc.html.select(&q.sel).map(
        |e| attrs.iter().map(|a| e.value().attr(a).map(|v| v.to_string())).collect(),
    ).collect()
}

/// Relies on `scraper::Html::root_element` and `ElementRef::text`: the text nodes
/// under the root `<html>` element, which an HTML5 parse always creates.
#[verifier::external_body]
pub(crate) fn visible_text(doc: &Document) -> (r: String)
    ensures
        r@ == html_text(doc.source()),
{
    doc.html.root_element().text().collect()
}

/// Relies on `str::to_lowercase`: the result depends on the characters alone.
#[verifier::external_body]
pub(crate) fn lowercase(s: &str) -> (r: String)
    ensures
        r@ == lower_of(s@),
{
    s.to_lowercase()
}

} // verus!
