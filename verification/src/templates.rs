//! The workflow template marketplace: the built-in templates, how a listing
//! is filtered and paged, the categories, and a template's details.

use vstd::prelude::*;
use crate::api::count_of;
use crate::text::{contains_seq, contains_str, eq_ignore_ascii_case, lowercase_spec, str_eq, str_eq_ignore_ascii_case, to_lowercase};

verus! {

/// A template as listed.
#[derive(Clone, Debug)]
pub struct TemplateListItem {
    pub id: String,
    pub name: String,
    pub description: Option<String>,
    pub category: Option<String>,
    pub tags: Vec<String>,
    pub version: String,
    pub author: Option<String>,
    pub usage_count: u64,
    pub is_public: bool,
}

/// The filters and paging of a listing.
#[derive(Debug)]
pub struct TemplateListQuery {
    pub category: Option<String>,
    pub tag: Option<String>,
    pub search: Option<String>,
    pub limit: Option<usize>,
    pub offset: Option<usize>,
}

/// A category and how many templates it holds.
#[derive(Debug)]
pub struct TemplateCategory {
    pub name: String,
    pub count: usize,
    pub description: Option<String>,
}

/// A parameter a template takes.
#[derive(Debug)]
pub struct TemplateParameter {
    pub name: String,
    pub param_type: String,
    pub description: Option<String>,
    pub required: bool,
    pub default_value: Option<String>,
}

/// A template with its parameters and a preview of its nodes.
#[derive(Debug)]
pub struct TemplateDetail {
    pub id: String,
    pub name: String,
    pub description: Option<String>,
    pub category: Option<String>,
    pub tags: Vec<String>,
    pub version: String,
    pub author: Option<String>,
    pub usage_count: u64,
    pub is_public: bool,
    pub parameters: Vec<TemplateParameter>,
    pub preview_nodes: Vec<String>,
}

/// The view of an optional string.
pub open spec fn ostr(o: Option<String>) -> Option<Seq<char>> {
    match o {
        Some(s) => Some(s@),
        None => None,
    }
}

/// The views of a list of strings.
pub open spec fn strs(v: Seq<String>) -> Seq<Seq<char>> {
    Seq::new(v.len(), |i: int| v[i]@)
}

// ---------------------------------------------------------------------------
// The built-in templates
// ---------------------------------------------------------------------------

/// The number of built-in templates.
pub open spec fn builtin_count() -> nat {
    8
}

/// Id, name, description, category, tags and usage count of the `i`-th
/// built-in template.
pub open spec fn builtin_row(i: int) -> (Seq<char>, Seq<char>, Seq<char>, Seq<char>, Seq<Seq<char>>, u64) {
    if i == 0 {
        ("rag-basic"@, "Basic RAG Pipeline"@, "A simple RAG pipeline with document retrieval and LLM generation"@, "RAG"@, seq!["rag"@, "retrieval"@, "generation"@], 1250)
    } else if i == 1 {
        ("agent-react"@, "ReAct Agent"@, "Reasoning and Acting agent with tool use capabilities"@, "Agent"@, seq!["agent"@, "react"@, "tool-use"@], 890)
    } else if i == 2 {
        ("data-extraction"@, "Structured Data Extraction"@, "Extract structured data from unstructured text using LLMs"@, "Data Processing"@, seq!["extraction"@, "structured-output"@, "parsing"@], 720)
    } else if i == 3 {
        ("chatbot-simple"@, "Simple Chatbot"@, "A basic conversational chatbot with memory"@, "Chatbot"@, seq!["chatbot"@, "conversation"@, "memory"@], 2100)
    } else if i == 4 {
        ("summarization"@, "Document Summarization"@, "Summarize long documents using map-reduce or iterative refinement"@, "Data Processing"@, seq!["summarization"@, "documents"@, "map-reduce"@], 560)
    } else if i == 5 {
        ("multi-agent"@, "Multi-Agent Collaboration"@, "Multiple AI agents working together on complex tasks"@, "Agent"@, seq!["multi-agent"@, "collaboration"@, "orchestration"@], 340)
    } else if i == 6 {
        ("code-review"@, "AI Code Review"@, "Automated code review with security and quality checks"@, "Developer Tools"@, seq!["code-review"@, "security"@, "quality"@], 480)
    } else {
        ("translation"@, "Multi-Language Translation"@, "Translate content between multiple languages with quality checks"@, "Data Processing"@, seq!["translation"@, "multilingual"@, "localization"@], 390)
    }
}

/// `t` is the `i`-th built-in template.
pub open spec fn is_builtin(t: TemplateListItem, i: int) -> bool {
    let row = builtin_row(i);
    &&& t.id@ == row.0
    &&& t.name@ == row.1
    &&& ostr(t.description) == Some(row.2)
    &&& ostr(t.category) == Some(row.3)
    &&& strs(t.tags@) == row.4
    &&& t.version@ == "1.0.0"@
    &&& ostr(t.author) == Some("OxiFY Team"@)
    &&& t.usage_count == row.5
    &&& t.is_public
}

fn template(
    id: &str,
    name: &str,
    description: &str,
    category: &str,
    tag1: &str,
    tag2: &str,
    tag3: &str,
    usage_count: u64,
) -> (t: TemplateListItem)
    ensures
        t.id@ == id@,
        t.name@ == name@,
        ostr(t.description) == Some(description@),
        ostr(t.category) == Some(category@),
        strs(t.tags@) == seq![tag1@, tag2@, tag3@],
        t.version@ == "1.0.0"@,
        ostr(t.author) == Some("OxiFY Team"@),
        t.usage_count == usage_count,
        t.is_public,
{
    let tags = vec![tag1.to_owned(), tag2.to_owned(), tag3.to_owned()];
    assert(strs(tags@) =~= seq![tag1@, tag2@, tag3@]);
    TemplateListItem {
        id: id.to_owned(),
        name: name.to_owned(),
        description: Some(description.to_owned()),
        category: Some(category.to_owned()),
        tags,
        version: String::from_str("1.0.0"),
        author: Some(String::from_str("OxiFY Team")),
        usage_count,
        is_public: true,
    }
}

/// The built-in templates, in their listing order.
pub fn get_builtin_templates() -> (r: Vec<TemplateListItem>)
    ensures
        r@.len() == builtin_count(),
        forall|i: int| 0 <= i < r@.len() ==> is_builtin(#[trigger] r@[i], i),
{
    let r = vec![
        template("rag-basic", "Basic RAG Pipeline", "A simple RAG pipeline with document retrieval and LLM generation", "RAG", "rag", "retrieval", "generation", 1250),
        template("agent-react", "ReAct Agent", "Reasoning and Acting agent with tool use capabilities", "Agent", "agent", "react", "tool-use", 890),
        template("data-extraction", "Structured Data Extraction", "Extract structured data from unstructured text using LLMs", "Data Processing", "extraction", "structured-output", "parsing", 720),
        template("chatbot-simple", "Simple Chatbot", "A basic conversational chatbot with memory", "Chatbot", "chatbot", "conversation", "memory", 2100),
        template("summarization", "Document Summarization", "Summarize long documents using map-reduce or iterative refinement", "Data Processing", "summarization", "documents", "map-reduce", 560),
        template("multi-agent", "Multi-Agent Collaboration", "Multiple AI agents working together on complex tasks", "Agent", "multi-agent", "collaboration", "orchestration", 340),
        template("code-review", "AI Code Review", "Automated code review with security and quality checks", "Developer Tools", "code-review", "security", "quality", 480),
        template("translation", "Multi-Language Translation", "Translate content between multiple languages with quality checks", "Data Processing", "translation", "multilingual", "localization", 390),
    ];
    assert forall|i: int| 0 <= i < r@.len() implies is_builtin(#[trigger] r@[i], i) by {}
    r
}

// ---------------------------------------------------------------------------
// Listing
// ---------------------------------------------------------------------------

/// `t` passes the filters of `q`: its category is the one asked for (ASCII
/// case ignored), one of its tags is the one asked for (likewise), and the
/// search text occurs in its name or description (both lower-cased).
pub open spec fn selected(t: TemplateListItem, q: TemplateListQuery) -> bool {
    &&& (q.category matches Some(c) ==> (t.category matches Some(tc) && eq_ignore_ascii_case(tc@, c@)))
    &&& (q.tag matches Some(g) ==> exists|i: int|
        0 <= i < t.tags@.len() && eq_ignore_ascii_case(#[trigger] t.tags@[i]@, g@))
    &&& (q.search matches Some(s) ==> (contains_seq(lowercase_spec(t.name@), lowercase_spec(s@)) || (
    t.description matches Some(d) && contains_seq(lowercase_spec(d@), lowercase_spec(s@)))))
}

fn passes(t: &TemplateListItem, q: &TemplateListQuery) -> (b: bool)
    ensures
        b == selected(*t, *q),
{
    if let Some(c) = &q.category {
        match &t.category {
            None => {
                return false;
            },
            Some(tc) => {
                if !str_eq_ignore_ascii_case(tc.as_str(), c.as_str()) {
                    return false;
                }
            },
        }
    }
    if let Some(g) = &q.tag {
        let mut found = false;
        let mut i: usize = 0;
        while i < t.tags.len()
            invariant
                i <= t.tags@.len(),
                found == exists|k: int| 0 <= k < i && eq_ignore_ascii_case(#[trigger] t.tags@[k]@, g@),
            decreases t.tags@.len() - i,
        {
            if str_eq_ignore_ascii_case(t.tags[i].as_str(), g.as_str()) {
                found = true;
            }
            i = i + 1;
        }
        if !found {
            return false;
        }
    }
    if let Some(s) = &q.search {
        let needle = to_lowercase(s.as_str());
        let in_name = contains_str(to_lowercase(t.name.as_str()).as_str(), needle.as_str());
        let in_desc = match &t.description {
            Some(d) => contains_str(to_lowercase(d.as_str()).as_str(), needle.as_str()),
            None => false,
        };
        if !(in_name || in_desc) {
            return false;
        }
    }
    true
}

/// The templates that pass the filters of `q`, in order.
pub open spec fn filtered(ts: Seq<TemplateListItem>, q: TemplateListQuery) -> Seq<TemplateListItem>
    decreases ts.len(),
{
    if ts.len() == 0 {
        Seq::empty()
    } else {
        let acc = filtered(ts.drop_last(), q);
        if selected(ts.last(), q) {
            acc.push(ts.last())
        } else {
            acc
        }
    }
}

/// The page of `s` that starts after `offset` items and holds at most
/// `limit` items.
pub open spec fn page<T>(s: Seq<T>, offset: nat, limit: nat) -> Seq<T> {
    if offset >= s.len() {
        Seq::empty()
    } else if offset + limit >= s.len() {
        s.subrange(offset as int, s.len() as int)
    } else {
        s.subrange(offset as int, (offset + limit) as int)
    }
}

/// The listing of `templates` under `q`: the templates that pass its
/// filters, then the page from `offset` (default 0) of at most `limit`
/// (default 50) templates.
pub fn list_templates(templates: Vec<TemplateListItem>, q: &TemplateListQuery) -> (r: Vec<TemplateListItem>)
    ensures
        r@ == page(
            filtered(templates@, *q),
            match q.offset {
                Some(o) => o as nat,
                None => 0,
            },
            match q.limit {
                Some(l) => l as nat,
                None => 50,
            },
        ),
{
    let ghost all = templates@;
    let total = templates.len();
    let mut rest = templates;
    let mut kept: Vec<TemplateListItem> = Vec::new();
    let mut i: usize = 0;
    proof {
        assert(all.take(0) =~= Seq::<TemplateListItem>::empty());
        assert(all.subrange(0, all.len() as int) =~= all);
    }
    while rest.len() > 0
        invariant
            i <= all.len(),
            all.len() == total,
            rest@ == all.subrange(i as int, all.len() as int),
            kept@ == filtered(all.take(i as int), *q),
        decreases rest@.len(),
    {
        let t = rest.remove(0);
        proof {
            assert(all.take(i + 1).drop_last() =~= all.take(i as int));
            assert(all.take(i + 1).last() == all[i as int]);
            assert(rest@ =~= all.subrange(i + 1, all.len() as int));
        }
        if passes(&t, q) {
            kept.push(t);
        }
        i = i + 1;
    }
    proof {
        assert(all.take(i as int) =~= all);
    }
    let offset = match q.offset {
        Some(o) => o,
        None => 0,
    };
    let limit = match q.limit {
        Some(l) => l,
        None => 50,
    };
    let ghost whole = kept@;
    let n = kept.len();
    let mut out: Vec<TemplateListItem> = Vec::new();
    if offset >= n {
        return out;
    }
    let end: usize = if limit >= n - offset {
        n
    } else {
        offset + limit
    };
    let mut skipped: usize = 0;
    while skipped < offset
        invariant
            skipped <= offset < n,
            n == whole.len(),
            kept@ == whole.subrange(skipped as int, n as int),
        decreases offset - skipped,
    {
        kept.remove(0);
        assert(kept@ =~= whole.subrange(skipped + 1, n as int));
        skipped = skipped + 1;
    }
    let mut j: usize = offset;
    while j < end
        invariant
            offset <= j <= end,
            end <= n,
            n == whole.len(),
            kept@ == whole.subrange(j as int, n as int),
            out@ == whole.subrange(offset as int, j as int),
        decreases end - j,
    {
        let t = kept.remove(0);
        out.push(t);
        assert(kept@ =~= whole.subrange(j + 1, n as int));
        assert(out@ =~= whole.subrange(offset as int, j + 1));
        j = j + 1;
    }
    out
}

// ---------------------------------------------------------------------------
// Template details
// ---------------------------------------------------------------------------

/// The position of the built-in template with id `id`, if any.
pub open spec fn builtin_index(id: Seq<char>) -> Option<int> {
    if exists|i: int| 0 <= i < builtin_count() && builtin_row(i).0 == id {
        Some(choose|i: int| 0 <= i < builtin_count() && builtin_row(i).0 == id)
    } else {
        None
    }
}

/// A parameter seen as (name, type, description, required, default).
pub open spec fn param_view(p: TemplateParameter) -> (Seq<char>, Seq<char>, Option<Seq<char>>, bool, Option<Seq<char>>) {
    (p.name@, p.param_type@, ostr(p.description), p.required, ostr(p.default_value))
}

/// The parameters of the template with id `id`.
pub open spec fn param_rows(id: Seq<char>) -> Seq<(Seq<char>, Seq<char>, Option<Seq<char>>, bool, Option<Seq<char>>)> {
    if id == "rag-basic"@ {
        seq![
            ("model"@, "model"@, Some("LLM model to use"@), true, Some("gpt-4"@)),
            ("collection"@, "collection"@, Some("Vector collection for retrieval"@), true, None),
            ("top_k"@, "integer"@, Some("Number of documents to retrieve"@), false, Some("5"@)),
        ]
    } else if id == "agent-react"@ {
        seq![
            ("model"@, "model"@, Some("LLM model for agent reasoning"@), true, Some("gpt-4"@)),
            ("max_iterations"@, "integer"@, Some("Maximum reasoning iterations"@), false, Some("10"@)),
            ("tools"@, "string_array"@, Some("Tools available to the agent"@), false, Some("[\"search\", \"calculator\"]"@)),
        ]
    } else {
        seq![("model"@, "model"@, Some("LLM model to use"@), true, Some("gpt-4"@))]
    }
}

/// The preview of the nodes of the template with id `id`.
pub open spec fn preview_rows(id: Seq<char>) -> Seq<Seq<char>> {
    if id == "rag-basic"@ {
        seq!["Start"@, "Query Embedding"@, "Vector Search"@, "Context Assembly"@, "LLM Generation"@, "End"@]
    } else if id == "agent-react"@ {
        seq!["Start"@, "Think"@, "Act (Tool Call)"@, "Observe"@, "Loop Check"@, "End"@]
    } else if id == "chatbot-simple"@ {
        seq!["Start"@, "Load History"@, "LLM Response"@, "Save History"@, "End"@]
    } else {
        seq!["Start"@, "Process"@, "End"@]
    }
}

fn param(name: &str, param_type: &str, description: &str, required: bool, default_value: Option<&str>) -> (p: TemplateParameter)
    ensures
        param_view(p) == (name@, param_type@, Some(description@), required, match default_value {
            Some(d) => Some(d@),
            None => None,
        }),
{
    TemplateParameter {
        name: name.to_owned(),
        param_type: param_type.to_owned(),
        description: Some(description.to_owned()),
        required,
        default_value: match default_value {
            Some(d) => Some(d.to_owned()),
            None => None,
        },
    }
}

fn template_parameters(id: &str) -> (r: Vec<TemplateParameter>)
    ensures
        Seq::new(r@.len(), |i: int| param_view(r@[i])) == param_rows(id@),
{
    let r = if str_eq(id, "rag-basic") {
        vec![
            param("model", "model", "LLM model to use", true, Some("gpt-4")),
            param("collection", "collection", "Vector collection for retrieval", true, None),
            param("top_k", "integer", "Number of documents to retrieve", false, Some("5")),
        ]
    } else if str_eq(id, "agent-react") {
        vec![
            param("model", "model", "LLM model for agent reasoning", true, Some("gpt-4")),
            param("max_iterations", "integer", "Maximum reasoning iterations", false, Some("10")),
            param("tools", "string_array", "Tools available to the agent", false, Some("[\"search\", \"calculator\"]")),
        ]
    } else {
        vec![param("model", "model", "LLM model to use", true, Some("gpt-4"))]
    };
    assert(Seq::new(r@.len(), |i: int| param_view(r@[i])) =~= param_rows(id@));
    r
}

fn strings(items: &[&str]) -> (r: Vec<String>)
    ensures
        strs(r@) == Seq::new(items@.len(), |i: int| items@[i]@),
{
    let mut out: Vec<String> = Vec::new();
    let mut i: usize = 0;
    while i < items.len()
        invariant
            i <= items@.len(),
            out@.len() == i,
            forall|k: int| 0 <= k < i ==> #[trigger] out@[k]@ == items@[k]@,
        decreases items@.len() - i,
    {
        out.push(items[i].to_owned());
        i = i + 1;
    }
    assert(strs(out@) =~= Seq::new(items@.len(), |k: int| items@[k]@));
    out
}

fn preview_nodes(id: &str) -> (r: Vec<String>)
    ensures
        strs(r@) == preview_rows(id@),
{
    let r = if str_eq(id, "rag-basic") {
        strings(&["Start", "Query Embedding", "Vector Search", "Context Assembly", "LLM Generation", "End"])
    } else if str_eq(id, "agent-react") {
        strings(&["Start", "Think", "Act (Tool Call)", "Observe", "Loop Check", "End"])
    } else if str_eq(id, "chatbot-simple") {
        strings(&["Start", "Load History", "LLM Response", "Save History", "End"])
    } else {
        strings(&["Start", "Process", "End"])
    };
    assert(strs(r@) =~= preview_rows(id@));
    r
}

proof fn lemma_builtin_ids_distinct()
    ensures
        forall|i: int, j: int|
            0 <= i < builtin_count() && 0 <= j < builtin_count() && i != j ==> builtin_row(i).0 != builtin_row(j).0,
{
    reveal_strlit("rag-basic");
    reveal_strlit("agent-react");
    reveal_strlit("data-extraction");
    reveal_strlit("chatbot-simple");
    reveal_strlit("summarization");
    reveal_strlit("multi-agent");
    reveal_strlit("code-review");
    reveal_strlit("translation");
    assert forall|i: int, j: int|
        0 <= i < builtin_count() && 0 <= j < builtin_count() && i != j implies builtin_row(i).0 != builtin_row(j).0 by {
        if builtin_row(i).0 == builtin_row(j).0 {
            assert(builtin_row(i).0.len() == builtin_row(j).0.len());
            assert(builtin_row(i).0[0] == builtin_row(j).0[0]);
            assert(builtin_row(i).0[1] == builtin_row(j).0[1]);
        }
    }
}

/// The details of the built-in template with id `id`: its listing, its
/// parameters and a preview of its nodes; `None` when no built-in template
/// has that id.
pub fn get_template(id: &str) -> (r: Option<TemplateDetail>)
    ensures
        match builtin_index(id@) {
            None => r is None,
            Some(i) => r matches Some(d) && {
                let row = builtin_row(i);
                &&& d.id@ == row.0
                &&& d.name@ == row.1
                &&& ostr(d.description) == Some(row.2)
                &&& ostr(d.category) == Some(row.3)
                &&& strs(d.tags@) == row.4
                &&& d.version@ == "1.0.0"@
                &&& ostr(d.author) == Some("OxiFY Team"@)
                &&& d.usage_count == row.5
                &&& d.is_public
                &&& Seq::new(d.parameters@.len(), |k: int| param_view(d.parameters@[k])) == param_rows(id@)
                &&& strs(d.preview_nodes@) == preview_rows(id@)
            },
        },
{
    let mut templates = get_builtin_templates();
    let ghost all = templates@;
    proof {
        lemma_builtin_ids_distinct();
    }
    let mut i: usize = 0;
    while i < templates.len()
        invariant
            templates@ == all,
            all.len() == builtin_count(),
            forall|k: int| 0 <= k < all.len() ==> is_builtin(#[trigger] all[k], k),
            i <= all.len(),
            forall|k: int| 0 <= k < i ==> builtin_row(k).0 != id@,
        decreases all.len() - i,
    {
        if str_eq(templates[i].id.as_str(), id) {
            assert(is_builtin(all[i as int], i as int));
            assert(builtin_index(id@) == Some(i as int)) by {
                lemma_builtin_ids_distinct();
                let c = choose|c: int| 0 <= c < builtin_count() && builtin_row(c).0 == id@;
                assert(builtin_row(i as int).0 == id@);
                if c != i {
                    assert(builtin_row(c).0 != builtin_row(i as int).0);
                }
            }
            let t = templates.remove(i);
            return Some(
                TemplateDetail {
                    id: t.id,
                    name: t.name,
                    description: t.description,
                    category: t.category,
                    tags: t.tags,
                    version: t.version,
                    author: t.author,
                    usage_count: t.usage_count,
                    is_public: t.is_public,
                    parameters: template_parameters(id),
                    preview_nodes: preview_nodes(id),
                },
            );
        }
        assert(is_builtin(all[i as int], i as int));
        i = i + 1;
    }
    assert(builtin_index(id@) is None);
    None
}

/// The message of a refused lookup of template `id`.
pub fn template_not_found_message(id: &str) -> (m: String)
    ensures
        m@ == "Template '"@ + id@ + "' not found"@,
{
    String::from_str("Template '").concat(id).concat("' not found")
}

// ---------------------------------------------------------------------------
// Categories
// ---------------------------------------------------------------------------

/// The description of a known category.
pub open spec fn category_description(name: Seq<char>) -> Option<Seq<char>> {
    if name == "RAG"@ {
        Some("Retrieval-Augmented Generation pipelines"@)
    } else if name == "Agent"@ {
        Some("Autonomous AI agents with tool use"@)
    } else if name == "Data Processing"@ {
        Some("Transform and process data with LLMs"@)
    } else if name == "Chatbot"@ {
        Some("Conversational AI interfaces"@)
    } else if name == "Developer Tools"@ {
        Some("Tools for software development"@)
    } else {
        None
    }
}

fn describe_category(name: &str) -> (d: Option<String>)
    ensures
        ostr(d) == category_description(name@),
{
    if str_eq(name, "RAG") {
        Some(String::from_str("Retrieval-Augmented Generation pipelines"))
    } else if str_eq(name, "Agent") {
        Some(String::from_str("Autonomous AI agents with tool use"))
    } else if str_eq(name, "Data Processing") {
        Some(String::from_str("Transform and process data with LLMs"))
    } else if str_eq(name, "Chatbot") {
        Some(String::from_str("Conversational AI interfaces"))
    } else if str_eq(name, "Developer Tools") {
        Some(String::from_str("Tools for software development"))
    } else {
        None
    }
}

/// The categories of a list of templates.
pub open spec fn categories_of(ts: Seq<TemplateListItem>) -> Seq<Option<Seq<char>>> {
    Seq::new(ts.len(), |i: int| ostr(ts[i].category))
}

/// `cs` lists each category of `ts` once, with the number of templates in
/// it and its description.
pub open spec fn category_listing(cs: Seq<TemplateCategory>, ts: Seq<TemplateListItem>) -> bool {
    &&& forall|a: int, b: int| 0 <= a < b < cs.len() ==> cs[a].name@ != cs[b].name@
    &&& forall|a: int|
        0 <= a < cs.len() ==> #[trigger] cs[a].count == count_of(categories_of(ts), Some(cs[a].name@))
            && cs[a].count > 0 && ostr(cs[a].description) == category_description(cs[a].name@)
    &&& forall|i: int|
        0 <= i < ts.len() && #[trigger] ts[i].category is Some ==> exists|a: int|
            0 <= a < cs.len() && cs[a].name@ == ts[i].category.unwrap()@
}

proof fn lemma_count_zero<T>(s: Seq<T>, x: T)
    requires
        !s.contains(x),
    ensures
        count_of(s, x) == 0,
    decreases s.len(),
{
    if s.len() > 0 {
        assert(!s.drop_last().contains(x)) by {
            if s.drop_last().contains(x) {
                let j = choose|j: int| 0 <= j < s.drop_last().len() && s.drop_last()[j] == x;
                assert(s[j] == x);
            }
        }
        lemma_count_zero(s.drop_last(), x);
    }
}

/// The position of the category called `name`, if listed.
fn find_category(out: &Vec<TemplateCategory>, name: &str) -> (r: Option<usize>)
    ensures
        match r {
            Some(a) => a < out@.len() && out@[a as int].name@ == name@,
            None => forall|b: int| 0 <= b < out@.len() ==> out@[b].name@ != name@,
        },
{
    let mut a: usize = 0;
    while a < out.len()
        invariant
            a <= out@.len(),
            forall|b: int| 0 <= b < a ==> out@[b].name@ != name@,
        decreases out@.len() - a,
    {
        if str_eq(out[a].name.as_str(), name) {
            return Some(a);
        }
        a = a + 1;
    }
    None
}

/// The categories of `templates`, each with the number of templates in it,
/// in the order of their first template.
pub fn template_categories(templates: &Vec<TemplateListItem>) -> (r: Vec<TemplateCategory>)
    ensures
        category_listing(r@, templates@),
{
    let ghost cats = categories_of(templates@);
    let mut out: Vec<TemplateCategory> = Vec::new();
    let mut i: usize = 0;
    while i < templates.len()
        invariant
            cats == categories_of(templates@),
            i <= templates@.len(),
            forall|a: int, b: int| 0 <= a < b < out@.len() ==> out@[a].name@ != out@[b].name@,
            forall|a: int|
                0 <= a < out@.len() ==> #[trigger] out@[a].count == count_of(
                    cats.take(i as int),
                    Some(out@[a].name@),
                ) && out@[a].count > 0 && ostr(out@[a].description) == category_description(
                    out@[a].name@,
                ),
            forall|j: int|
                0 <= j < i && #[trigger] templates@[j].category is Some ==> exists|a: int|
                    0 <= a < out@.len() && out@[a].name@ == templates@[j].category.unwrap()@,
            forall|c: Seq<char>|
                #![trigger cats.take(i as int).contains(Some(c))]
                cats.take(i as int).contains(Some(c)) ==> exists|a: int|
                    0 <= a < out@.len() && out@[a].name@ == c,
            out@.len() <= i,
        decreases templates@.len() - i,
    {
        let ghost prev = cats.take(i as int);
        proof {
            assert(cats.take(i + 1).drop_last() =~= prev);
            assert(cats.take(i + 1).last() == ostr(templates@[i as int].category));
        }
        match &templates[i].category {
            None => {
                proof {
                    assert forall|a: int| 0 <= a < out@.len() implies #[trigger] out@[a].count
                        == count_of(cats.take(i + 1), Some(out@[a].name@)) by {}
                    assert forall|c: Seq<char>| cats.take(i + 1).contains(Some(c)) implies exists|a: int|
                        0 <= a < out@.len() && out@[a].name@ == c by {
                        let j = choose|j: int| 0 <= j < i + 1 && #[trigger] cats.take(i + 1)[j] == Some(c);
                        assert(prev[j] == Some(c));
                        assert(prev.contains(Some(c)));
                    }
                }
            },
            Some(c) => {
                let pos = find_category(&out, c.as_str());
                if let Some(a) = pos {
                    let ghost before = out@;
                    let cnt = out[a].count;
                    proof {
                        crate::api::lemma_count_bound(prev, Some(c@));
                    }
                    let desc = describe_category(out[a].name.as_str());
                    let name = out[a].name.clone();
                    let entry = TemplateCategory { name, count: cnt + 1, description: desc };
                    out.set(a, entry);
                    proof {
                        assert forall|b: int| 0 <= b < out@.len() implies #[trigger] out@[b].count
                            == count_of(cats.take(i + 1), Some(out@[b].name@)) by {
                            if b == a {
                            } else {
                                assert(out@[b] == before[b]);
                            }
                        }
                        assert forall|j: int|
                            0 <= j < i + 1 && #[trigger] templates@[j].category is Some implies exists|b: int|
                            0 <= b < out@.len() && out@[b].name@ == templates@[j].category.unwrap()@ by {
                            if j < i {
                                let b = choose|b: int|
                                    0 <= b < before.len() && before[b].name@ == templates@[j].category.unwrap()@;
                                assert(out@[b].name@ == before[b].name@);
                            } else {
                                assert(out@[a as int].name@ == c@);
                            }
                        }
                        assert forall|d: Seq<char>| cats.take(i + 1).contains(Some(d)) implies exists|b: int|
                            0 <= b < out@.len() && out@[b].name@ == d by {
                            let j = choose|j: int| 0 <= j < i + 1 && #[trigger] cats.take(i + 1)[j] == Some(d);
                            if j < i {
                                assert(prev[j] == Some(d));
                                assert(prev.contains(Some(d)));
                                let b = choose|b: int| 0 <= b < before.len() && before[b].name@ == d;
                                assert(out@[b].name@ == before[b].name@);
                            } else {
                                assert(out@[a as int].name@ == c@);
                            }
                        }
                    }
                } else {
                    proof {
                        assert(!prev.contains(Some(c@))) by {
                            if prev.contains(Some(c@)) {
                                let b = choose|b: int| 0 <= b < out@.len() && out@[b].name@ == c@;
                                assert(out@[b].name@ != c@);
                            }
                        }
                        lemma_count_zero(prev, Some(c@));
                    }
                    let ghost before = out@;
                    let desc = describe_category(c.as_str());
                    out.push(TemplateCategory { name: c.clone(), count: 1, description: desc });
                    proof {
                        assert forall|b: int| 0 <= b < out@.len() implies #[trigger] out@[b].count
                            == count_of(cats.take(i + 1), Some(out@[b].name@)) && out@[b].count > 0
                            && ostr(out@[b].description) == category_description(out@[b].name@) by {
                            if b < before.len() {
                                assert(out@[b] == before[b]);
                                assert(before[b].name@ != c@);
                            }
                        }
                        assert forall|j: int|
                            0 <= j < i + 1 && #[trigger] templates@[j].category is Some implies exists|b: int|
                            0 <= b < out@.len() && out@[b].name@ == templates@[j].category.unwrap()@ by {
                            if j < i {
                                let b = choose|b: int|
                                    0 <= b < before.len() && before[b].name@ == templates@[j].category.unwrap()@;
                                assert(out@[b] == before[b]);
                            } else {
                                assert(out@[before.len() as int].name@ == c@);
                            }
                        }
                        assert forall|d: Seq<char>| cats.take(i + 1).contains(Some(d)) implies exists|b: int|
                            0 <= b < out@.len() && out@[b].name@ == d by {
                            let j = choose|j: int| 0 <= j < i + 1 && #[trigger] cats.take(i + 1)[j] == Some(d);
                            if j < i {
                                assert(prev[j] == Some(d));
                                assert(prev.contains(Some(d)));
                                let b = choose|b: int| 0 <= b < before.len() && before[b].name@ == d;
                                assert(out@[b] == before[b]);
                            } else {
                                assert(out@[before.len() as int].name@ == c@);
                            }
                        }
                    }
                }
            },
        }
        i = i + 1;
    }
    proof {
        assert(cats.take(i as int) =~= cats);
    }
    out
}

proof fn lemma_filtered_selected(ts: Seq<TemplateListItem>, q: TemplateListQuery)
    ensures
        forall|i: int| 0 <= i < filtered(ts, q).len() ==> selected(#[trigger] filtered(ts, q)[i], q) && ts.contains(
            filtered(ts, q)[i],
        ),
    decreases ts.len(),
{
    if ts.len() > 0 {
        lemma_filtered_selected(ts.drop_last(), q);
        let acc = filtered(ts.drop_last(), q);
        assert forall|i: int| 0 <= i < filtered(ts, q).len() implies selected(#[trigger] filtered(ts, q)[i], q)
            && ts.contains(filtered(ts, q)[i]) by {
            if i < acc.len() {
                assert(filtered(ts, q)[i] == acc[i]);
                assert(ts.drop_last().contains(acc[i]));
                let k = choose|k: int| 0 <= k < ts.drop_last().len() && ts.drop_last()[k] == acc[i];
                assert(ts[k] == acc[i]);
            } else {
                assert(filtered(ts, q)[i] == ts.last());
                assert(ts[ts.len() - 1] == ts.last());
            }
        }
    }
}

/// A listing keeps only what its filters ask for: every template listed is
/// one of the given templates, carries a tag equal to the asked tag up to
/// ASCII case, and has the asked category (likewise), whatever the page.
pub proof fn law_listing_honours_filters(ts: Seq<TemplateListItem>, q: TemplateListQuery, offset: nat, limit: nat)
    ensures
        forall|i: int|
            0 <= i < page(filtered(ts, q), offset, limit).len() ==> {
                let t = #[trigger] page(filtered(ts, q), offset, limit)[i];
                &&& ts.contains(t)
                &&& (q.tag matches Some(g) ==> exists|k: int|
                    0 <= k < t.tags@.len() && eq_ignore_ascii_case(#[trigger] t.tags@[k]@, g@))
                &&& (q.category matches Some(c) ==> (t.category matches Some(tc) && eq_ignore_ascii_case(
                    tc@,
                    c@,
                )))
            },
{
    lemma_filtered_selected(ts, q);
    let f = filtered(ts, q);
    assert forall|i: int| 0 <= i < page(f, offset, limit).len() implies #[trigger] page(f, offset, limit)[i]
        == f[offset + i] by {}
    assert forall|i: int| 0 <= i < page(f, offset, limit).len() implies selected(
        #[trigger] page(f, offset, limit)[i],
        q,
    ) && ts.contains(page(f, offset, limit)[i]) by {
        assert(page(f, offset, limit)[i] == f[offset + i]);
    }
}

} // verus!
