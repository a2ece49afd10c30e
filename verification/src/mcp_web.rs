//! The web tool server: its limits, and the checks and choices it makes on a
//! tool call before a page is fetched.

use vstd::prelude::*;
use crate::mcp::{McpError, is_execution_error, is_invalid_request, is_tool_not_found};
use crate::text::{
    has_prefix, join, join_spec, lines, starts_with, str_eq, string_views, text_lines, trim,
    trim_spec, trim_start, trim_start_spec,
};
use crate::templating::{replace_all, replace_spec};
use vstd::string::StringSliceAdditionalSpecFns;

verus! {

/// The largest response body the web server returns whole (10 MiB).
pub const DEFAULT_MAX_RESPONSE_SIZE: usize = 10485760;

/// The arguments of a web tool call, as read from its JSON object (each one
/// when it is a string).
pub struct WebToolArgs {
    pub url: Option<String>,
    pub body: Option<String>,
    pub content_type: Option<String>,
    pub selector: Option<String>,
}

/// What a web tool call asks for.
#[derive(Debug)]
pub enum WebRequest {
    /// Fetch a page.
    Get { url: String },
    /// Post a body of the given content type.
    Post { url: String, body: String, content_type: String },
    /// Fetch a page and keep its text (the text of the elements matched by
    /// `selector`, when one is given).
    Scrape { url: String, selector: Option<String> },
}

/// The names of the web tools, in the order they are listed.
pub open spec fn web_tool_names_spec() -> Seq<Seq<char>> {
    seq!["http_get"@, "http_post"@, "web_scrape"@, "web_screenshot"@]
}

/// The names of the web tools, in the order they are listed.
pub fn web_tool_names() -> (r: Vec<&'static str>)
    ensures
        r@.len() == web_tool_names_spec().len(),
        forall|i: int| 0 <= i < r@.len() ==> #[trigger] r@[i]@ == web_tool_names_spec()[i],
{
    let r = vec!["http_get", "http_post", "web_scrape", "web_screenshot"];
    assert(r@.len() == 4);
    r
}

/// The view of an optional string, or `default` when absent.
pub open spec fn str_or(o: Option<String>, default: Seq<char>) -> Seq<char> {
    match o {
        Some(s) => s@,
        None => default,
    }
}

/// `r` is the plan of the web tool call `name` with `a`.
pub open spec fn web_plan(r: Result<WebRequest, McpError>, name: Seq<char>, a: WebToolArgs) -> bool {
    if name == "web_screenshot"@ {
        r matches Err(e) && is_execution_error(e, "Screenshot not yet implemented. Requires headless browser."@)
    } else if !(name == "http_get"@ || name == "http_post"@ || name == "web_scrape"@) {
        r matches Err(e) && is_tool_not_found(e, name)
    } else if a.url is None {
        r matches Err(e) && is_invalid_request(e, "Missing 'url'"@)
    } else if name == "http_get"@ {
        r matches Ok(WebRequest::Get { url: u }) && u@ == a.url.unwrap()@
    } else if name == "http_post"@ {
        r matches Ok(WebRequest::Post { url: u, body: b, content_type: c }) && u@ == a.url.unwrap()@
            && b@ == str_or(a.body, Seq::empty()) && c@ == str_or(a.content_type, "application/json"@)
    } else {
        r matches Ok(WebRequest::Scrape { url: u, selector: s }) && u@ == a.url.unwrap()@
            && match (s, a.selector) {
            (Some(x), Some(y)) => x@ == y@,
            (None, None) => true,
            _ => false,
        }
    }
}

/// Decides what a web tool call asks for, or refuses it: an unknown tool, a
/// missing `url`, or a screenshot (which needs a headless browser).
pub fn plan_web_tool(name: &str, args: &WebToolArgs) -> (r: Result<WebRequest, McpError>)
    ensures
        web_plan(r, name@, *args),
{
    if str_eq(name, "web_screenshot") {
        return Err(
            McpError::ToolExecutionError(
                String::from_str("Screenshot not yet implemented. Requires headless browser."),
            ),
        );
    }
    let known = str_eq(name, "http_get") || str_eq(name, "http_post") || str_eq(name, "web_scrape");
    if !known {
        return Err(McpError::ToolNotFound(name.to_owned()));
    }
    let url = match &args.url {
        None => {
            return Err(McpError::InvalidRequest(String::from_str("Missing 'url'")));
        },
        Some(u) => u.clone(),
    };
    if str_eq(name, "http_get") {
        Ok(WebRequest::Get { url })
    } else if str_eq(name, "http_post") {
        let body = match &args.body {
            Some(b) => b.clone(),
            None => String::new(),
        };
        let content_type = match &args.content_type {
            Some(c) => c.clone(),
            None => String::from_str("application/json"),
        };
        Ok(WebRequest::Post { url, body, content_type })
    } else {
        let selector = match &args.selector {
            Some(s) => Some(s.clone()),
            None => None,
        };
        Ok(WebRequest::Scrape { url, selector })
    }
}

/// A response body cut to `max` bytes, marked as cut, when it is longer.
pub fn truncate_body(body: &str, max: usize) -> (r: String)
    requires
        body.spec_bytes().len() <= usize::MAX,
        body.spec_bytes().len() > max ==> vstd::utf8::is_char_boundary(body.spec_bytes(), max as int),
    ensures
        body.spec_bytes().len() <= max ==> r@ == body@,
        body.spec_bytes().len() > max ==> r@ == vstd::utf8::decode_utf8(
            body.spec_bytes().subrange(0, max as int),
        ) + "...[truncated]"@,
{
    if body.len() > max {
        let (head, _) = body.split_at(max);
        let r = String::from_str(head).concat("...[truncated]");
        proof {
            vstd::utf8::encode_utf8_decode_utf8(head@);
        }
        assert(head.spec_bytes() == body.spec_bytes().subrange(0, max as int));
        assert(vstd::utf8::decode_utf8(body.spec_bytes().subrange(0, max as int)) == head@);
        assert(r@ == head@ + "...[truncated]"@);
        r
    } else {
        String::from_str(body)
    }
}

/// A line of a page that is kept as text: once its leading white space is
/// dropped, it does not open a `<script` or `<style` element.
pub open spec fn kept_line(l: Seq<char>) -> bool {
    !has_prefix(trim_start_spec(l), "<script"@) && !has_prefix(trim_start_spec(l), "<style"@)
}

/// The lines of `ls` that are kept, in order.
pub open spec fn kept_lines(ls: Seq<Seq<char>>) -> Seq<Seq<char>>
    decreases ls.len(),
{
    if ls.len() == 0 {
        Seq::empty()
    } else if kept_line(ls.last()) {
        kept_lines(ls.drop_last()).push(ls.last())
    } else {
        kept_lines(ls.drop_last())
    }
}

/// The text of a page without a selector: each `<script` and `<style`
/// starts a new line, and the lines that open such an element are dropped.
pub open spec fn page_text_spec(html: Seq<char>) -> Seq<char> {
    let split = replace_spec(
        replace_spec(html, "<script"@, "\n<script"@),
        "<style"@,
        "\n<style"@,
    );
    join_spec(kept_lines(text_lines(split)), "\n"@)
}

/// The text of a page scraped without a selector: the lines that open a
/// script or style element are dropped (each such element first moved to a
/// line of its own).
pub fn page_text(html: &str) -> (r: String)
    ensures
        r@ == page_text_spec(html@),
{
    proof {
        reveal_strlit("<script");
        reveal_strlit("<style");
    }
    let a = replace_all(html, "<script", "\n<script");
    let b = replace_all(a.as_str(), "<style", "\n<style");
    let ls = lines(b.as_str());
    let ghost all = string_views(ls@);
    let mut kept: Vec<String> = Vec::new();
    let mut i: usize = 0;
    while i < ls.len()
        invariant
            all == string_views(ls@),
            i <= ls@.len(),
            string_views(kept@) == kept_lines(all.take(i as int)),
        decreases ls@.len() - i,
    {
        proof {
            assert(all.take(i + 1).drop_last() =~= all.take(i as int));
            assert(all.take(i + 1).last() == ls@[i as int]@);
        }
        let t = trim_start(ls[i].as_str());
        if !starts_with(t, "<script") && !starts_with(t, "<style") {
            let ghost before = string_views(kept@);
            kept.push(ls[i].clone());
            assert(string_views(kept@) =~= before.push(ls@[i as int]@));
        }
        i = i + 1;
    }
    assert(all.take(ls@.len() as int) =~= all);
    join(&kept, "\n")
}

// ---------------------------------------------------------------------
// Scraping by CSS selector
// ---------------------------------------------------------------------

/// What `scraper` finds in `html` for `selector`: for each element matched,
/// in document order, the texts of its descendant text nodes; or the debug
/// text of the selector's parse error.
pub uninterp spec fn select_texts_spec(html: Seq<char>, selector: Seq<char>) -> Result<
    Seq<Seq<Seq<char>>>,
    Seq<char>,
>;

/// The texts of nested lists of strings.
pub open spec fn nested_views(v: Seq<Vec<String>>) -> Seq<Seq<Seq<char>>> {
    Seq::new(v.len(), |i: int| string_views(v[i]@))
}

/// Parses `html` with `scraper::Html::parse_document` and `selector` with
/// `scraper::Selector::parse`; on success, the text nodes
/// (`ElementRef::text`) of each element that `Html::select` yields. The
/// outcome is named.
#[verifier::external_body]
fn select_texts(html: &str, selector: &str) -> (r: Result<Vec<Vec<String>>, String>)
    ensures
        match (r, select_texts_spec(html@, selector@)) {
            (Ok(v), Ok(s)) => nested_views(v@) == s,
            (Err(e), Err(m)) => e@ == m,
            _ => false,
        },
{
    let document = scraper::Html::parse_document(html);
    match scraper::Selector::parse(selector) {
        Ok(parsed) => Ok(
            document.select(&parsed).map(|e| e.text().map(|t| t.to_string()).collect()).collect(),
        ),
        Err(e) => Err(format!("{e:?}")),
    }
}

/// The trimmed fragments of `fs` that are not empty, in order.
pub open spec fn nonempty_trimmed(fs: Seq<Seq<char>>) -> Seq<Seq<char>>
    decreases fs.len(),
{
    if fs.len() == 0 {
        Seq::empty()
    } else if trim_spec(fs.last()).len() == 0 {
        nonempty_trimmed(fs.drop_last())
    } else {
        nonempty_trimmed(fs.drop_last()).push(trim_spec(fs.last()))
    }
}

/// The text of one matched element: its trimmed non-empty fragments joined
/// by spaces.
pub open spec fn element_text(fs: Seq<Seq<char>>) -> Seq<char> {
    join_spec(nonempty_trimmed(fs), " "@)
}

/// The text of all matched elements, one per line.
pub open spec fn selected_text(es: Seq<Seq<Seq<char>>>) -> Seq<char> {
    join_spec(Seq::new(es.len(), |i: int| element_text(es[i])), "\n"@)
}

fn element_text_exec(fs: &Vec<String>) -> (r: String)
    ensures
        r@ == element_text(string_views(fs@)),
{
    let ghost all = string_views(fs@);
    let mut kept: Vec<String> = Vec::new();
    let mut i: usize = 0;
    while i < fs.len()
        invariant
            all == string_views(fs@),
            i <= fs@.len(),
            string_views(kept@) == nonempty_trimmed(all.take(i as int)),
        decreases fs@.len() - i,
    {
        proof {
            assert(all.take(i + 1).drop_last() =~= all.take(i as int));
            assert(all.take(i + 1).last() == fs@[i as int]@);
        }
        let t = trim(fs[i].as_str());
        if !t.is_empty() {
            let ghost before = string_views(kept@);
            kept.push(String::from_str(t));
            assert(string_views(kept@) =~= before.push(trim_spec(fs@[i as int]@)));
        }
        i = i + 1;
    }
    assert(all.take(fs@.len() as int) =~= all);
    proof {
        reveal_strlit(" ");
    }
    join(&kept, " ")
}

/// The text of the elements of `html` matched by the CSS `selector`: each
/// element's trimmed, non-empty text nodes joined by spaces, the elements
/// one per line (empty when nothing matches). A selector that does not
/// parse is an invalid request.
pub fn extract_selected_text(html: &str, selector: &str) -> (r: Result<String, McpError>)
    ensures
        match select_texts_spec(html@, selector@) {
            Ok(es) => r matches Ok(t) && t@ == selected_text(es),
            Err(m) => r matches Err(e) && is_invalid_request(
                e,
                "Invalid CSS selector '"@ + selector@ + "': "@ + m,
            ),
        },
{
    match select_texts(html, selector) {
        Err(m) => Err(
            McpError::InvalidRequest(
                String::from_str("Invalid CSS selector '").concat(selector).concat("': ").concat(
                    m.as_str(),
                ),
            ),
        ),
        Ok(elements) => {
            let ghost es = nested_views(elements@);
            let mut texts: Vec<String> = Vec::new();
            let mut i: usize = 0;
            while i < elements.len()
                invariant
                    es == nested_views(elements@),
                    i <= elements@.len(),
                    texts@.len() == i,
                    forall|j: int| 0 <= j < i ==> #[trigger] texts@[j]@ == element_text(es[j]),
                decreases elements@.len() - i,
            {
                let t = element_text_exec(&elements[i]);
                texts.push(t);
                i = i + 1;
            }
            assert(string_views(texts@) =~= Seq::new(es.len(), |j: int| element_text(es[j])));
            proof {
                reveal_strlit("\n");
            }
            Ok(join(&texts, "\n"))
        },
    }
}

} // verus!
