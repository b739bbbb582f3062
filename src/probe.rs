//! What the prober does with one HTTP response, and how summary lists are
//! written out.
use vstd::prelude::*;
use crate::text::{contains_run, str_contains};
use crate::markup::{lower_of, lowercase};

verus! {

/// What becomes of one probed path.
#[derive(Debug, Clone, Copy, PartialEq, Eq)]
pub enum ProbeOutcome {
    /// A success status with an HTML body: save it and extract from it.
    SaveHtml,
    /// A success status with another content type: report it, save nothing.
    NonHtml,
    /// A status outside the success range: report it, save nothing.
    BadStatus,
}

/// The HTTP success range.
pub open spec fn is_success(status: u16) -> bool {
    200 <= status && status <= 299
}

pub open spec fn html_type() -> Seq<char> {
    seq!['t', 'e', 'x', 't', '/', 'h', 't', 'm', 'l']
}

/// The outcome for a status and an already lower-cased content type.
pub open spec fn outcome(status: u16, content_type_lower: Seq<char>) -> ProbeOutcome {
    if !is_success(status) {
        ProbeOutcome::BadStatus
    } else if contains_run(content_type_lower, html_type()) {
        ProbeOutcome::SaveHtml
    } else {
        ProbeOutcome::NonHtml
    }
}

/// The outcome for `status` and a content type given in lower case.
pub fn classify_folded(status: u16, content_type_lower: &str) -> (r: ProbeOutcome)
    ensures
        r == outcome(status, content_type_lower@),
{
    proof {
        reveal_strlit("text/html");
        assert("text/html"@ =~= html_type());
    }
    if status < 200 || status > 299 {
        ProbeOutcome::BadStatus
    } else if str_contains(content_type_lower, "text/html") {
        ProbeOutcome::SaveHtml
    } else {
        ProbeOutcome::NonHtml
    }
}

/// The outcome for `status` and the `content-type` header (empty when absent):
/// HTML is recognised by a case-insensitive search for `text/html`.
pub fn classify_response(status: u16, content_type: &str) -> (r: ProbeOutcome)
    ensures
        r == outcome(status, lower_of(content_type@)),
{
    let lower = lowercase(content_type);
    classify_folded(status, lower.as_str())
}

/// Each item followed by a line break.
pub open spec fn lines_text(items: Seq<Seq<char>>) -> Seq<char>
    decreases items.len(),
{
    if items.len() == 0 {
        seq![]
    } else {
        lines_text(items.drop_last()) + items.last() + seq!['\n']
    }
}

/// The text of a summary file: one item per line.
pub fn render_lines(items: &Vec<String>) -> (r: String)
    ensures
        r@ == lines_text(items.deep_view()),
{
    let mut out = String::new();
    let mut i: usize = 0;
    while i < items.len()
        invariant
            i <= items.len(),
            out@ == lines_text(items.deep_view().take(i as int)),
        decreases items.len() - i,
    {
        proof {
            reveal_strlit("\n");
            assert("\n"@ =~= seq!['\n']);
        }
        let ghost it = items.deep_view().take(i + 1);
        assert(it.drop_last() =~= items.deep_view().take(i as int));
        assert(it.last() == items[i as int]@);
        out.append(items[i].as_str());
        out.append("\n");
        i += 1;
    }
    assert(items.deep_view().take(items.len() as int) =~= items.deep_view());
    out
}

/// Whether position `i` of `name` holds the last `.` of the name.
pub open spec fn is_last_dot(name: Seq<char>, i: int) -> bool {
    0 <= i < name.len() && name[i] == '.' && forall|j: int| i < j < name.len() ==> name[j] != '.'
}

/// The extension of a file name, as `Path::extension` reads it: what follows
/// the last `.`, unless that dot is the name's first character.
pub open spec fn extension_of(name: Seq<char>) -> Option<Seq<char>> {
    if exists|i: int| 0 < i && is_last_dot(name, i) {
        let i = choose|i: int| 0 < i && is_last_dot(name, i);
        Some(name.subrange(i + 1, name.len() as int))
    } else {
        None
    }
}

/// The extensions of the captured files that are scanned.
pub open spec fn is_capture_extension(e: Seq<char>) -> bool {
    e == seq!['h', 't', 'm', 'l'] || e == seq!['h', 't', 'm'] || e == seq!['t', 'x', 't']
}

/// Whether a file of the capture directory is scanned: its extension is
/// `html`, `htm` or `txt`.
pub fn has_capture_extension(file_name: &str) -> (r: bool)
    ensures
        r == (extension_of(file_name@) matches Some(e) && is_capture_extension(e)),
{
    let v = crate::text::chars_of(file_name);
    let mut i: usize = v.len();
    while i > 0 && v[i - 1] != '.'
        invariant
            i <= v.len(),
            v@ == file_name@,
            forall|j: int| i <= j < v.len() ==> v@[j] != '.',
        decreases i,
    {
        i -= 1;
    }
    if i <= 1 {
        proof {
            if exists|k: int| 0 < k && is_last_dot(v@, k) {
                let k = choose|k: int| 0 < k && is_last_dot(v@, k);
                if i == 1 {
                    assert(v@[0] == '.');
                }
                assert(k < i || k == i - 1 || k >= i);
            }
        }
        return false;
    }
    let d = i - 1;
    proof {
        assert(is_last_dot(v@, d as int));
        let k = choose|k: int| 0 < k && is_last_dot(v@, k);
        assert(k == d);
    }
    let n = v.len() - i;
    let ghost e = v@.subrange(i as int, v.len() as int);
    let r = if n == 4 {
        v[i] == 'h' && v[i + 1] == 't' && v[i + 2] == 'm' && v[i + 3] == 'l'
    } else if n == 3 {
        (v[i] == 'h' && v[i + 1] == 't' && v[i + 2] == 'm') || (v[i] == 't' && v[i + 1] == 'x'
            && v[i + 2] == 't')
    } else {
        false
    };
    proof {
        if r {
            if n == 4 {
                assert(e =~= seq!['h', 't', 'm', 'l']);
            } else if v[i as int] == 'h' {
                assert(e =~= seq!['h', 't', 'm']);
            } else {
                assert(e =~= seq!['t', 'x', 't']);
            }
        } else {
            if e == seq!['h', 't', 'm', 'l'] {
                assert(e[0] == 'h' && e[1] == 't' && e[2] == 'm' && e[3] == 'l');
            }
            if e == seq!['h', 't', 'm'] {
                assert(e[0] == 'h' && e[1] == 't' && e[2] == 'm');
            }
            if e == seq!['t', 'x', 't'] {
                assert(e[0] == 't' && e[1] == 'x' && e[2] == 't');
            }
        }
    }
    r
}

} // verus!
