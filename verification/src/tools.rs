//! The tools offered to the agent, how their calls are planned and answered, and
//! how their arguments are read.
use crate::json::{
    json_member, json_parsed, json_str, json_u64, parse_json, string_elems, u64_elems, JsonValue,
    ParseError,
};
use crate::text::{byte_count, dec, joined, prefix, string_views};
use crate::types::{paper_views, Paper, PaperView, ToolDef};
use vstd::prelude::*;

verus! {

// ── Tool definitions ──

/// What `search_papers` does.
pub const SEARCH_PAPERS_DESC: &'static str = "Search for academic papers by keywords. Returns numbered papers with titles, authors, years, venues, abstracts, and citation counts. Use the index numbers in brackets (e.g., [0], [5]) to remember papers.";

/// What `get_cited_papers` does.
pub const GET_CITED_DESC: &'static str = "Get papers that cite a specific paper (forward citation). Reference the paper by its index number from previous search results.";

/// What `get_references` does.
pub const GET_REFERENCES_DESC: &'static str = "Get papers that a specific paper cites (backward citation). Reference the paper by its index number from previous search results.";

/// What `clarify_query` does.
pub const CLARIFY_DESC: &'static str = "Present 3-5 specific research directions when the query is ambiguous. Use at ANY stage:\n- Before search: vague queries like '鲜花', '电池', 'AI'\n- During search: if results span unrelated fields — stop and clarify\n- After search: when papers cluster into distinct groups — offer each as a focused direction\n\nBase the options on actual search results when available, not generic guesses. Each option should be a specific research direction, in Chinese.";

/// What `finish_search` does.
pub const FINISH_DESC: &'static str = "Call this when you have gathered enough relevant papers. Provide a brief summary and optionally drop irrelevant papers.";

/// The description of the `query` parameter.
pub const QUERY_PARAM_DESC: &'static str = "English keywords for the search query. Be specific and use academic terminology.";

/// The description of the `max_results` parameter of `search_papers`.
pub const SEARCH_MAX_DESC: &'static str = "Maximum number of results to return (default 15, max 20)";

/// The description of the `paper_index` parameter.
pub const INDEX_PARAM_DESC: &'static str = "The index number of the paper shown in brackets [N] in previous results";

/// The description of the `max_results` parameter of the citation tools.
pub const CITATION_MAX_DESC: &'static str = "Maximum results (default 10)";

/// The description of the `message` parameter of `clarify_query`.
pub const CLARIFY_MESSAGE_DESC: &'static str = "Explanation of why the query needs clarification, in Chinese";

/// The description of the `options` parameter of `clarify_query`.
pub const OPTIONS_PARAM_DESC: &'static str = "3-5 specific research directions, each in Chinese, e.g. '无人机自主导航与路径规划'";

/// The description of the `message` parameter of `finish_search`.
pub const FINISH_MESSAGE_DESC: &'static str = "Brief assessment of search coverage and key findings";

/// The description of the `drop_indices` parameter of `finish_search`.
pub const DROP_PARAM_DESC: &'static str = "List of paper indices to REMOVE from the pool (papers that don't match the refinement). Only include indices you are confident should be dropped.";

/// Member `i` of `ms` is named `key` and holds the string `value`.
pub open spec fn str_member(ms: Seq<(String, JsonValue)>, i: int, key: Seq<char>, value: Seq<char>) -> bool {
    ms[i].0@ == key && ms[i].1.str_of() == Some(value)
}

/// `v` is the property `{"type": ty, "description": desc}`.
pub open spec fn prop_is(v: JsonValue, ty: Seq<char>, desc: Seq<char>) -> bool {
    v.object_of() matches Some(ms) && ms.len() == 2 && str_member(ms, 0, "type"@, ty) && str_member(
        ms,
        1,
        "description"@,
        desc,
    )
}

/// `v` is the property `{"type": ty, "description": desc, "default": d}`.
pub open spec fn prop_default_is(v: JsonValue, ty: Seq<char>, desc: Seq<char>, d: u64) -> bool {
    v.object_of() matches Some(ms) && ms.len() == 3 && str_member(ms, 0, "type"@, ty) && str_member(
        ms,
        1,
        "description"@,
        desc,
    ) && ms[2].0@ == "default"@ && ms[2].1 == JsonValue::Number(crate::json::JsonNumber::PosInt(d))
}

/// `v` is the property `{"type": "array", "items": {"type": item_ty}, "description": desc}`.
pub open spec fn prop_array_is(v: JsonValue, item_ty: Seq<char>, desc: Seq<char>) -> bool {
    v.object_of() matches Some(ms) && ms.len() == 3 && str_member(ms, 0, "type"@, "array"@) && ms[1].0@
        == "items"@ && (ms[1].1.object_of() matches Some(it) && it.len() == 1 && str_member(it, 0, "type"@, item_ty))
        && str_member(ms, 2, "description"@, desc)
}

/// `v` is the schema `{"type": "object", "properties": props, "required": required}`,
/// the names of `required` given by their characters.
pub open spec fn schema_is(v: JsonValue, props: Seq<(String, JsonValue)>, required: Seq<Seq<char>>) -> bool {
    v.object_of() matches Some(ms) && ms.len() == 3 && str_member(ms, 0, "type"@, "object"@) && ms[1].0@
        == "properties"@ && ms[1].1.object_of() == Some(props) && ms[2].0@ == "required"@ && (ms[2].1.array_of() matches Some(
        rs,
    ) && rs.len() == required.len() && forall|k: int| 0 <= k < rs.len() ==> #[trigger] rs[k].str_of() == Some(required[k]))
}

/// A property of a parameter schema: `{"type": ty, "description": desc}`.
fn prop(ty: &str, desc: &str) -> (res: JsonValue)
    ensures
        prop_is(res, ty@, desc@),
{
    JsonValue::Object(vec![json_member("type", json_str(ty)), json_member("description", json_str(desc))])
}

/// A property with a default: `{"type": ty, "description": desc, "default": d}`.
fn prop_default(ty: &str, desc: &str, d: u64) -> (res: JsonValue)
    ensures
        prop_default_is(res, ty@, desc@, d),
{
    JsonValue::Object(
        vec![
            json_member("type", json_str(ty)),
            json_member("description", json_str(desc)),
            json_member("default", json_u64(d)),
        ],
    )
}

/// An array property of elements of type `item_ty`.
fn prop_array(item_ty: &str, desc: &str) -> (res: JsonValue)
    ensures
        prop_array_is(res, item_ty@, desc@),
{
    let items = JsonValue::Object(vec![json_member("type", json_str(item_ty))]);
    JsonValue::Object(
        vec![
            json_member("type", json_str("array")),
            json_member("items", items),
            json_member("description", json_str(desc)),
        ],
    )
}

/// An object schema with the given properties and required names.
fn object_schema(props: Vec<(String, JsonValue)>, required: Vec<JsonValue>) -> (res: JsonValue)
    ensures
        res.object_of() matches Some(ms) && ms.len() == 3 && str_member(ms, 0, "type"@, "object"@) && ms[1].0@
            == "properties"@ && ms[1].1 == JsonValue::Object(props) && ms[2].0@ == "required"@ && ms[2].1
            == JsonValue::Array(required),
{
    JsonValue::Object(
        vec![
            json_member("type", json_str("object")),
            json_member("properties", JsonValue::Object(props)),
            json_member("required", JsonValue::Array(required)),
        ],
    )
}

/// The parameter schema of a tool with the properties `props` and required names.
fn schema(props: Vec<(String, JsonValue)>, required: Vec<&str>) -> (res: JsonValue)
    ensures
        schema_is(res, props@, Seq::new(required@.len(), |k: int| required@[k]@)),
{
    let ghost pv = props@;
    let mut names: Vec<JsonValue> = Vec::new();
    let mut i: usize = 0;
    while i < required.len()
        invariant
            i <= required@.len(),
            names@.len() == i,
            forall|k: int| 0 <= k < i ==> #[trigger] names@[k].str_of() == Some(required@[k]@),
        decreases required.len() - i,
    {
        names.push(json_str(required[i]));
        i = i + 1;
    }
    let res = object_schema(props, names);
    proof {
        let ms = res.object_of()->0;
        assert(ms[1].1.object_of() == Some(pv));
    }
    res
}

/// `t` is the function tool `name` with description `desc`, whose object schema has
/// the properties `props` and requires exactly `required`.
pub open spec fn is_tool(
    t: ToolDef,
    name: Seq<char>,
    desc: Seq<char>,
    props: Seq<(String, JsonValue)>,
    required: Seq<Seq<char>>,
) -> bool {
    &&& t.tool_type@ == "function"@
    &&& t.function.name@ == name
    &&& t.function.description@ == desc
    &&& schema_is(t.function.parameters, props, required)
}

/// Two properties named `a` and `b`, satisfying `pa` and `pb`.
pub open spec fn two_props(
    ps: Seq<(String, JsonValue)>,
    a: Seq<char>,
    pa: spec_fn(JsonValue) -> bool,
    b: Seq<char>,
    pb: spec_fn(JsonValue) -> bool,
) -> bool {
    ps.len() == 2 && ps[0].0@ == a && pa(ps[0].1) && ps[1].0@ == b && pb(ps[1].1)
}

/// The five tools of the agent: search, forward and backward citations, asking the
/// user to clarify, and finishing the search, with their parameter schemas.
pub fn agent_tools() -> (res: Vec<ToolDef>)
    ensures
        res.len() == 5,
        exists|p0: Seq<(String, JsonValue)>|
            is_tool(res[0], "search_papers"@, SEARCH_PAPERS_DESC@, p0, seq!["query"@]) && two_props(
                p0,
                "query"@,
                |v: JsonValue| prop_is(v, "string"@, QUERY_PARAM_DESC@),
                "max_results"@,
                |v: JsonValue| prop_default_is(v, "integer"@, SEARCH_MAX_DESC@, 15),
            ),
        exists|p1: Seq<(String, JsonValue)>|
            is_tool(res[1], "get_cited_papers"@, GET_CITED_DESC@, p1, seq!["paper_index"@]) && two_props(
                p1,
                "paper_index"@,
                |v: JsonValue| prop_is(v, "integer"@, INDEX_PARAM_DESC@),
                "max_results"@,
                |v: JsonValue| prop_default_is(v, "integer"@, CITATION_MAX_DESC@, 10),
            ),
        exists|p2: Seq<(String, JsonValue)>|
            is_tool(res[2], "get_references"@, GET_REFERENCES_DESC@, p2, seq!["paper_index"@]) && two_props(
                p2,
                "paper_index"@,
                |v: JsonValue| prop_is(v, "integer"@, INDEX_PARAM_DESC@),
                "max_results"@,
                |v: JsonValue| prop_default_is(v, "integer"@, CITATION_MAX_DESC@, 10),
            ),
        exists|p3: Seq<(String, JsonValue)>|
            is_tool(res[3], "clarify_query"@, CLARIFY_DESC@, p3, seq!["message"@, "options"@]) && two_props(
                p3,
                "message"@,
                |v: JsonValue| prop_is(v, "string"@, CLARIFY_MESSAGE_DESC@),
                "options"@,
                |v: JsonValue| prop_array_is(v, "string"@, OPTIONS_PARAM_DESC@),
            ),
        exists|p4: Seq<(String, JsonValue)>|
            is_tool(res[4], "finish_search"@, FINISH_DESC@, p4, seq!["message"@]) && two_props(
                p4,
                "message"@,
                |v: JsonValue| prop_is(v, "string"@, FINISH_MESSAGE_DESC@),
                "drop_indices"@,
                |v: JsonValue| prop_array_is(v, "integer"@, DROP_PARAM_DESC@),
            ),
{
    let q = vec![
        json_member("query", prop("string", QUERY_PARAM_DESC)),
        json_member("max_results", prop_default("integer", SEARCH_MAX_DESC, 15)),
    ];
    let ghost p0 = q@;
    let search = ToolDef::new("search_papers", SEARCH_PAPERS_DESC, schema(q, vec!["query"]));
    let c = vec![
        json_member("paper_index", prop("integer", INDEX_PARAM_DESC)),
        json_member("max_results", prop_default("integer", CITATION_MAX_DESC, 10)),
    ];
    let ghost p1 = c@;
    let cited = ToolDef::new("get_cited_papers", GET_CITED_DESC, schema(c, vec!["paper_index"]));
    let r = vec![
        json_member("paper_index", prop("integer", INDEX_PARAM_DESC)),
        json_member("max_results", prop_default("integer", CITATION_MAX_DESC, 10)),
    ];
    let ghost p2 = r@;
    let refs = ToolDef::new("get_references", GET_REFERENCES_DESC, schema(r, vec!["paper_index"]));
    let m = vec![
        json_member("message", prop("string", CLARIFY_MESSAGE_DESC)),
        json_member("options", prop_array("string", OPTIONS_PARAM_DESC)),
    ];
    let ghost p3 = m@;
    let clarify = ToolDef::new("clarify_query", CLARIFY_DESC, schema(m, vec!["message", "options"]));
    let f = vec![
        json_member("message", prop("string", FINISH_MESSAGE_DESC)),
        json_member("drop_indices", prop_array("integer", DROP_PARAM_DESC)),
    ];
    let ghost p4 = f@;
    let finish = ToolDef::new("finish_search", FINISH_DESC, schema(f, vec!["message"]));
    let res = vec![search, cited, refs, clarify, finish];
    proof {
        assert(is_tool(res[0], "search_papers"@, SEARCH_PAPERS_DESC@, p0, seq!["query"@]));
        assert(is_tool(res[1], "get_cited_papers"@, GET_CITED_DESC@, p1, seq!["paper_index"@]));
        assert(is_tool(res[2], "get_references"@, GET_REFERENCES_DESC@, p2, seq!["paper_index"@]));
        assert(is_tool(res[3], "clarify_query"@, CLARIFY_DESC@, p3, seq!["message"@, "options"@]));
        assert(is_tool(res[4], "finish_search"@, FINISH_DESC@, p4, seq!["message"@]));
    }
    res
}

// ── Papers as the agent sees them ──

/// The key under which a paper is deduplicated: its DOI when it has one, else its id.
pub open spec fn paper_key(p: PaperView) -> Seq<char> {
    if p.doi.len() > 0 && p.doi != "N/A"@ {
        p.doi
    } else {
        p.id
    }
}

/// The deduplication key of a paper.
pub fn make_key(p: &Paper) -> (res: String)
    ensures
        res@ == paper_key(p@),
{
    if !p.doi.as_str().is_empty() && !crate::text::str_eq(p.doi.as_str(), "N/A") {
        p.doi.clone()
    } else {
        p.id.clone()
    }
}

/// The author line of a paper: the first author and "et al." for more than three
/// authors, else all of them separated by commas.
pub open spec fn authors_text(authors: Seq<Seq<char>>) -> Seq<char> {
    if authors.len() > 3 {
        authors[0] + " et al."@
    } else {
        joined(authors, ", "@)
    }
}

/// The entry of a paper with number `index` in a list shown to the agent.
pub open spec fn paper_entry(p: PaperView, index: nat) -> Seq<char> {
    "["@ + dec(index) + "] "@ + p.title + " ("@ + dec(p.year as nat) + ")\n  Authors: "@
        + authors_text(p.authors) + " | Venue: "@ + p.venue + " | Citations: "@ + dec(
        p.citation_count as nat,
    ) + "\n  Abstract: "@ + prefix(p.abstract_text, 250) + (if byte_count(p.abstract_text) > 250 {
        "..."@
    } else {
        ""@
    })
}

/// Formats a paper for the agent.
fn format_paper(p: &Paper, index: usize) -> (res: String)
    ensures
        res@ == paper_entry(p@, index as nat),
{
    let authors = if p.authors.len() > 3 {
        let mut a = p.authors[0].clone();
        a.append(" et al.");
        a
    } else {
        crate::text::join(&p.authors, ", ")
    };
    let snippet = crate::text::take_chars(p.abstract_text.as_str(), 250);
    let trunc = if p.abstract_text.as_str().len() > 250 {
        "..."
    } else {
        ""
    };
    let mut s = String::new();
    s.append("[");
    crate::text::push_dec(&mut s, index as u64);
    s.append("] ");
    s.append(p.title.as_str());
    s.append(" (");
    crate::text::push_dec(&mut s, p.year as u64);
    s.append(")\n  Authors: ");
    s.append(authors.as_str());
    s.append(" | Venue: ");
    s.append(p.venue.as_str());
    s.append(" | Citations: ");
    crate::text::push_dec(&mut s, p.citation_count as u64);
    s.append("\n  Abstract: ");
    s.append(snippet.as_str());
    s.append(trunc);
    assert(s@ =~= paper_entry(p@, index as nat));
    s
}

/// The entries of `ps`, numbered from `start`.
pub open spec fn paper_entries(ps: Seq<PaperView>, start: nat) -> Seq<Seq<char>> {
    Seq::new(ps.len(), |i: int| paper_entry(ps[i], start + i as nat))
}

/// The text that answers a search for `query` which added the papers `ps`, numbered from `start`.
pub open spec fn search_results_text(query: Seq<char>, ps: Seq<PaperView>, start: nat) -> Seq<char> {
    if ps.len() == 0 {
        "Search for \""@ + query + "\" returned no results. Try different keywords."@
    } else {
        "Search for \""@ + query + "\" returned "@ + dec(ps.len()) + " papers:\n"@ + joined(
            paper_entries(ps, start),
            "\n\n"@,
        )
    }
}

/// Formats the papers that a search added, numbered from `start_idx`, for the agent.
pub fn format_search_results(query: &str, papers: &[Paper], start_idx: usize) -> (res: String)
    requires
        start_idx + papers@.len() <= usize::MAX + 1,
    ensures
        res@ == search_results_text(query@, paper_views(papers@), start_idx as nat),
{
    if papers.len() == 0 {
        let mut s = String::new();
        s.append("Search for \"");
        s.append(query);
        s.append("\" returned no results. Try different keywords.");
        assert(s@ =~= search_results_text(query@, paper_views(papers@), start_idx as nat));
        return s;
    }
    let mut entries: Vec<String> = Vec::new();
    let mut i: usize = 0;
    while i < papers.len()
        invariant
            i <= papers@.len(),
            start_idx + papers@.len() <= usize::MAX + 1,
            string_views(entries@) == paper_entries(paper_views(papers@), start_idx as nat).take(i as int),
        decreases papers.len() - i,
    {
        let e = format_paper(&papers[i], start_idx + i);
        let ghost before = entries@;
        entries.push(e);
        i = i + 1;
        assert(string_views(entries@) =~= string_views(before).push(e@));
        assert(string_views(entries@) =~= paper_entries(paper_views(papers@), start_idx as nat).take(i as int));
    }
    assert(paper_entries(paper_views(papers@), start_idx as nat).take(papers@.len() as int)
        =~= paper_entries(paper_views(papers@), start_idx as nat));
    let body = crate::text::join(&entries, "\n\n");
    let mut s = String::new();
    s.append("Search for \"");
    s.append(query);
    s.append("\" returned ");
    crate::text::push_dec(&mut s, papers.len() as u64);
    s.append(" papers:\n");
    s.append(body.as_str());
    assert(s@ =~= search_results_text(query@, paper_views(papers@), start_idx as nat));
    s
}

// ── Tool execution ──

/// A fetch from the search backend that a tool call asks for.
#[derive(Debug)]
pub enum ToolRequest {
    /// `search_papers`: a keyword search.
    Search { query: String, max_results: usize },
    /// `get_cited_papers`: the papers that cite paper `paper_index` of the pool.
    CitingPapers { paper_index: usize, paper_id: String, max_results: usize },
    /// `get_references`: the papers that paper `paper_index` of the pool cites.
    References { paper_index: usize, paper_id: String, max_results: usize },
}

impl Clone for ToolRequest {
    fn clone(&self) -> (res: Self)
        ensures
            res == *self,
    {
        match self {
            ToolRequest::Search { query, max_results } => ToolRequest::Search { query: query.clone(), max_results: *max_results },
            ToolRequest::CitingPapers { paper_index, paper_id, max_results } => ToolRequest::CitingPapers {
                paper_index: *paper_index,
                paper_id: paper_id.clone(),
                max_results: *max_results,
            },
            ToolRequest::References { paper_index, paper_id, max_results } => ToolRequest::References {
                paper_index: *paper_index,
                paper_id: paper_id.clone(),
                max_results: *max_results,
            },
        }
    }
}

/// What a tool call needs: an immediate answer, or a fetch first.
#[derive(Debug)]
pub enum ToolStep {
    Answer(String),
    Fetch(ToolRequest),
}

/// The arguments of a tool call as a document: the parsed JSON, or null where the
/// text is not JSON.
pub open spec fn tool_args(arguments: Seq<char>) -> JsonValue {
    match json_parsed(arguments) {
        Some(v) => v,
        None => JsonValue::Null,
    }
}

/// `v.as_str().unwrap_or(d)`.
pub open spec fn str_or(v: JsonValue, d: Seq<char>) -> Seq<char> {
    match v.str_of() {
        Some(s) => s,
        None => d,
    }
}

/// `v.as_u64().unwrap_or(d)`.
pub open spec fn u64_or(v: JsonValue, d: u64) -> u64 {
    match v.u64_of() {
        Some(n) => n,
        None => d,
    }
}

/// The smaller of two numbers.
pub open spec fn min_u64(a: u64, b: u64) -> u64 {
    if a <= b {
        a
    } else {
        b
    }
}

/// The answer to a citation tool call naming a paper index outside the pool.
pub open spec fn index_error_text(index: nat, pool_len: nat) -> Seq<char> {
    "Error: paper index "@ + dec(index) + " not found. Available indices: 0-"@ + dec(
        if pool_len > 0 {
            (pool_len - 1) as nat
        } else {
            0
        },
    )
}

/// What a call of tool `name` with `arguments` needs, over a pool of `pool` papers.
pub open spec fn tool_step_ok(step: ToolStep, name: Seq<char>, arguments: Seq<char>, pool: Seq<PaperView>) -> bool {
    let args = tool_args(arguments);
    if name == "search_papers"@ {
        step matches ToolStep::Fetch(ToolRequest::Search { query, max_results })
            && query@ == str_or(args.at("query"@), ""@)
            && max_results == min_u64(u64_or(args.at("max_results"@), 15), 20) as usize
    } else if name == "get_cited_papers"@ || name == "get_references"@ {
        let idx = u64_or(args.at("paper_index"@), 0) as usize;
        let max = min_u64(u64_or(args.at("max_results"@), 10), 15) as usize;
        if idx < pool.len() {
            if name == "get_cited_papers"@ {
                step matches ToolStep::Fetch(ToolRequest::CitingPapers { paper_index, paper_id, max_results })
                    && paper_index == idx && paper_id@ == pool[idx as int].id && max_results == max
            } else {
                step matches ToolStep::Fetch(ToolRequest::References { paper_index, paper_id, max_results })
                    && paper_index == idx && paper_id@ == pool[idx as int].id && max_results == max
            }
        } else {
            step matches ToolStep::Answer(t) && t@ == index_error_text(idx as nat, pool.len())
        }
    } else {
        step matches ToolStep::Answer(t) && t@ == "Unknown tool: "@ + name
    }
}

/// Reads the arguments of a tool call; text that is not JSON reads as null.
fn read_args(arguments: &str) -> (res: JsonValue)
    ensures
        res == tool_args(arguments@),
{
    match parse_json(arguments) {
        Ok(v) => v,
        Err(_) => JsonValue::Null,
    }
}

/// The smaller of two numbers.
fn min_exec(a: u64, b: u64) -> (res: u64)
    ensures
        res == min_u64(a, b),
{
    if a <= b {
        a
    } else {
        b
    }
}

/// The answer for a paper index outside the pool.
fn index_error(index: usize, pool_len: usize) -> (res: String)
    ensures
        res@ == index_error_text(index as nat, pool_len as nat),
{
    let mut s = String::new();
    s.append("Error: paper index ");
    crate::text::push_dec(&mut s, index as u64);
    s.append(" not found. Available indices: 0-");
    let last: usize = if pool_len > 0 {
        pool_len - 1
    } else {
        0
    };
    crate::text::push_dec(&mut s, last as u64);
    assert(s@ =~= index_error_text(index as nat, pool_len as nat));
    s
}

/// Decides what a call of tool `name` with `arguments` needs: the search and citation
/// tools ask for a fetch (with their limits capped at 20 and 15), a citation tool that
/// names a paper outside the pool and an unknown tool are answered at once.
pub fn plan_tool(name: &str, arguments: &str, paper_list: &Vec<Paper>) -> (res: ToolStep)
    ensures
        tool_step_ok(res, name@, arguments@, paper_views(paper_list@)),
{
    let args = read_args(arguments);
    if crate::text::str_eq(name, "search_papers") {
        let query = match args.get("query").as_str() {
            Some(q) => crate::text::owned(q),
            None => crate::text::owned(""),
        };
        let max = match args.get("max_results").as_u64() {
            Some(n) => n,
            None => 15,
        };
        return ToolStep::Fetch(ToolRequest::Search { query, max_results: min_exec(max, 20) as usize });
    }
    let cited = crate::text::str_eq(name, "get_cited_papers");
    if cited || crate::text::str_eq(name, "get_references") {
        let idx: usize = match args.get("paper_index").as_u64() {
            Some(n) => n as usize,
            None => 0,
        };
        let max = match args.get("max_results").as_u64() {
            Some(n) => n,
            None => 10,
        };
        let max_results = min_exec(max, 15) as usize;
        if idx >= paper_list.len() {
            return ToolStep::Answer(index_error(idx, paper_list.len()));
        }
        let paper_id = paper_list[idx].id.clone();
        if cited {
            return ToolStep::Fetch(ToolRequest::CitingPapers { paper_index: idx, paper_id, max_results });
        } else {
            return ToolStep::Fetch(ToolRequest::References { paper_index: idx, paper_id, max_results });
        }
    }
    let mut s = crate::text::owned("Unknown tool: ");
    s.append(name);
    ToolStep::Answer(s)
}

/// The pool and seen keys after adding, in order, each paper of `new` whose key has
/// not been seen, and recording its key.
pub open spec fn absorb(
    pool: Seq<PaperView>,
    seen: Seq<Seq<char>>,
    new: Seq<PaperView>,
) -> (Seq<PaperView>, Seq<Seq<char>>)
    decreases new.len(),
{
    if new.len() == 0 {
        (pool, seen)
    } else {
        let (l, s) = absorb(pool, seen, new.drop_last());
        let p = new.last();
        if s.contains(paper_key(p)) {
            (l, s)
        } else {
            (l.push(p), s.push(paper_key(p)))
        }
    }
}

/// Whether one of the strings of `v` holds the characters of `s`.
pub fn contains_string(v: &Vec<String>, s: &str) -> (res: bool)
    ensures
        res == string_views(v@).contains(s@),
{
    let mut i: usize = 0;
    while i < v.len()
        invariant
            i <= v@.len(),
            forall|k: int| 0 <= k < i ==> v@[k]@ != s@,
        decreases v.len() - i,
    {
        if crate::text::str_eq(v[i].as_str(), s) {
            assert(string_views(v@)[i as int] == s@);
            return true;
        }
        i = i + 1;
    }
    assert(!string_views(v@).contains(s@)) by {
        if string_views(v@).contains(s@) {
            let k = choose|k: int| 0 <= k < string_views(v@).len() && string_views(v@)[k] == s@;
            assert(v@[k]@ == s@);
        }
    }
    false
}

/// Adds to the pool each paper of `papers` whose key is not in `seen_keys`, recording
/// its key, and returns copies of the papers added, in order.
pub fn absorb_papers(
    paper_list: &mut Vec<Paper>,
    seen_keys: &mut Vec<String>,
    papers: Vec<Paper>,
) -> (added: Vec<Paper>)
    ensures
        (paper_views(final(paper_list)@), string_views(final(seen_keys)@)) == absorb(
            paper_views(old(paper_list)@),
            string_views(old(seen_keys)@),
            paper_views(papers@),
        ),
        paper_views(added@) == paper_views(final(paper_list)@).skip(old(paper_list)@.len() as int),
{
    let ghost pool0 = paper_views(paper_list@);
    let ghost seen0 = string_views(seen_keys@);
    let ghost new = paper_views(papers@);
    let ghost n0 = paper_list@.len();
    let mut added: Vec<Paper> = Vec::new();
    let mut i: usize = 0;
    while i < papers.len()
        invariant
            i <= papers@.len(),
            new == paper_views(papers@),
            paper_list@.len() >= n0,
            paper_views(paper_list@).take(n0 as int) == pool0,
            (paper_views(paper_list@), string_views(seen_keys@)) == absorb(pool0, seen0, new.take(i as int)),
            paper_views(added@) == paper_views(paper_list@).skip(n0 as int),
        decreases papers.len() - i,
    {
        let p = &papers[i];
        let key = make_key(p);
        assert(new.take(i + 1).drop_last() =~= new.take(i as int));
        assert(new.take(i + 1).last() == p@);
        let ghost l0 = paper_views(paper_list@);
        let ghost a0 = paper_views(added@);
        let ghost s0 = string_views(seen_keys@);
        if !contains_string(seen_keys, key.as_str()) {
            let c = p.clone();
            let d = p.clone();
            paper_list.push(c);
            added.push(d);
            let ghost k = key@;
            seen_keys.push(key);
            assert(paper_views(paper_list@) =~= l0.push(p@));
            assert(paper_views(added@) =~= a0.push(p@));
            assert(string_views(seen_keys@) =~= s0.push(k));
            assert(paper_views(paper_list@).take(n0 as int) =~= l0.take(n0 as int));
            assert(paper_views(paper_list@).skip(n0 as int) =~= l0.skip(n0 as int).push(p@));
        }
        i = i + 1;
    }
    assert(new.take(papers@.len() as int) =~= new);
    added
}

/// The label under which the answer to a fetch names what was searched.
pub open spec fn request_label(req: ToolRequest) -> Seq<char> {
    match req {
        ToolRequest::Search { query, .. } => query@,
        ToolRequest::CitingPapers { paper_index, .. } => "papers citing ["@ + dec(paper_index as nat) + "]"@,
        ToolRequest::References { paper_index, .. } => "papers referenced by ["@ + dec(paper_index as nat) + "]"@,
    }
}

/// The label of a fetch.
fn label_of(req: &ToolRequest) -> (res: String)
    ensures
        res@ == request_label(*req),
{
    match req {
        ToolRequest::Search { query, .. } => query.clone(),
        ToolRequest::CitingPapers { paper_index, .. } => {
            let mut s = crate::text::owned("papers citing [");
            crate::text::push_dec(&mut s, *paper_index as u64);
            s.append("]");
            assert(s@ =~= request_label(*req));
            s
        },
        ToolRequest::References { paper_index, .. } => {
            let mut s = crate::text::owned("papers referenced by [");
            crate::text::push_dec(&mut s, *paper_index as u64);
            s.append("]");
            assert(s@ =~= request_label(*req));
            s
        },
    }
}

/// Answers a fetch with the papers that came back: the new ones join the pool, and the
/// answer lists them, numbered from where they stand in the pool.
pub fn complete_tool(
    req: &ToolRequest,
    papers: Vec<Paper>,
    paper_list: &mut Vec<Paper>,
    seen_keys: &mut Vec<String>,
) -> (res: String)
    requires
        old(paper_list)@.len() + papers@.len() <= usize::MAX,
    ensures
        (paper_views(final(paper_list)@), string_views(final(seen_keys)@)) == absorb(
            paper_views(old(paper_list)@),
            string_views(old(seen_keys)@),
            paper_views(papers@),
        ),
        res@ == search_results_text(
            request_label(*req),
            paper_views(final(paper_list)@).skip(old(paper_list)@.len() as int),
            old(paper_list)@.len() as nat,
        ),
{
    let start = paper_list.len();
    let ghost pv = paper_views(papers@);
    let added = absorb_papers(paper_list, seen_keys, papers);
    proof {
        lemma_absorb_len(paper_views(old(paper_list)@), string_views(old(seen_keys)@), pv);
        assert(paper_views(added@).len() == added@.len());
    }
    let label = label_of(req);
    format_search_results(label.as_str(), added.as_slice(), start)
}

/// Finishes a tool call that fetched: the search is counted whatever came back; a
/// failed fetch hands its error back and leaves the pool as it was; fetched papers are
/// added as `complete_tool` adds them, and its answer is the result.
pub fn finish_fetch<E>(
    req: &ToolRequest,
    outcome: Result<Vec<Paper>, E>,
    paper_list: &mut Vec<Paper>,
    seen_keys: &mut Vec<String>,
    search_calls: &mut u32,
) -> (res: Result<String, E>)
    requires
        *old(search_calls) < u32::MAX,
        outcome matches Ok(ps) ==> old(paper_list)@.len() + ps@.len() <= usize::MAX,
    ensures
        *final(search_calls) == *old(search_calls) + 1,
        match outcome {
            Err(e) => {
                &&& res == Err::<String, E>(e)
                &&& final(paper_list)@ == old(paper_list)@
                &&& final(seen_keys)@ == old(seen_keys)@
            },
            Ok(ps) => {
                &&& (paper_views(final(paper_list)@), string_views(final(seen_keys)@)) == absorb(
                    paper_views(old(paper_list)@),
                    string_views(old(seen_keys)@),
                    paper_views(ps@),
                )
                &&& res matches Ok(text) && text@ == search_results_text(
                    request_label(*req),
                    paper_views(final(paper_list)@).skip(old(paper_list)@.len() as int),
                    old(paper_list)@.len() as nat,
                )
            },
        },
{
    *search_calls = *search_calls + 1;
    match outcome {
        Err(e) => Err(e),
        Ok(papers) => Ok(complete_tool(req, papers, paper_list, seen_keys)),
    }
}

/// Absorbing adds at most one paper per new paper.
pub proof fn lemma_absorb_len(pool: Seq<PaperView>, seen: Seq<Seq<char>>, new: Seq<PaperView>)
    ensures
        pool.len() <= absorb(pool, seen, new).0.len() <= pool.len() + new.len(),
        absorb(pool, seen, new).0.take(pool.len() as int) == pool,
    decreases new.len(),
{
    if new.len() > 0 {
        lemma_absorb_len(pool, seen, new.drop_last());
        let (l, s) = absorb(pool, seen, new.drop_last());
        assert(l.push(new.last()).take(pool.len() as int) =~= l.take(pool.len() as int));
    }
}

// ── Reading the arguments of the clarify and finish tools ──

/// The options of a `clarify_query` call.
pub open spec fn clarify_options(args: JsonValue) -> Seq<Seq<char>> {
    match args.at("options"@).array_of() {
        Some(a) => string_elems(a),
        None => seq![],
    }
}

/// Reads the arguments of `clarify_query`: the message (by default "请选择研究方向:")
/// and the string options. Fails exactly where the text is not JSON.
pub fn parse_clarify(arguments: &str) -> (res: Result<(String, Vec<String>), ParseError>)
    ensures
        res is Ok <==> json_parsed(arguments@) is Some,
        res matches Ok((m, opts)) ==> {
            let a = json_parsed(arguments@)->0;
            &&& m@ == str_or(a.at("message"@), "请选择研究方向:"@)
            &&& string_views(opts@) == clarify_options(a)
        },
{
    let args = match parse_json(arguments) {
        Ok(v) => v,
        Err(e) => return Err(e),
    };
    let message = match args.get("message").as_str() {
        Some(m) => crate::text::owned(m),
        None => crate::text::owned("请选择研究方向:"),
    };
    let options = match args.get("options").as_array() {
        Some(a) => crate::json::collect_strings(a),
        None => Vec::new(),
    };
    proof {
        if args.at("options"@).array_of() is None {
            assert(string_views(options@) =~= seq![]);
        }
    }
    Ok((message, options))
}

/// The drop list of a `finish_search` call: its integer elements, as indices.
pub open spec fn finish_drops(args: JsonValue) -> Seq<usize> {
    match args.at("drop_indices"@).array_of() {
        Some(a) => u64_elems(a).map_values(|n: u64| n as usize),
        None => seq![],
    }
}

/// Reads the arguments of `finish_search`: the message (by default "Search completed.")
/// and the indices to drop. Fails exactly where the text is not JSON.
pub fn parse_finish_message(arguments: &str) -> (res: Result<(String, Vec<usize>), ParseError>)
    ensures
        res is Ok <==> json_parsed(arguments@) is Some,
        res matches Ok((m, drops)) ==> {
            let a = json_parsed(arguments@)->0;
            &&& m@ == str_or(a.at("message"@), "Search completed."@)
            &&& drops@ == finish_drops(a)
        },
{
    let args = match parse_json(arguments) {
        Ok(v) => v,
        Err(e) => return Err(e),
    };
    let message = match args.get("message").as_str() {
        Some(m) => crate::text::owned(m),
        None => crate::text::owned("Search completed."),
    };
    let mut drops: Vec<usize> = Vec::new();
    match args.get("drop_indices").as_array() {
        Some(a) => {
            let ns = crate::json::collect_u64s(a);
            let mut i: usize = 0;
            while i < ns.len()
                invariant
                    i <= ns@.len(),
                    drops@ == ns@.take(i as int).map_values(|n: u64| n as usize),
                decreases ns.len() - i,
            {
                drops.push(ns[i] as usize);
                i = i + 1;
                assert(drops@ =~= ns@.take(i as int).map_values(|n: u64| n as usize));
            }
            assert(ns@.take(ns@.len() as int) =~= ns@);
        },
        None => {
            assert(drops@ =~= finish_drops(args));
        },
    }
    Ok((message, drops))
}

/// The number shown before a paper in the answer to a fetch is its position in the
/// pool, so that a later call naming that number reaches the same paper.
pub proof fn lemma_listed_index(pool: Seq<PaperView>, seen: Seq<Seq<char>>, new: Seq<PaperView>, k: int)
    requires
        0 <= k < absorb(pool, seen, new).0.len() - pool.len(),
    ensures
        paper_entries(absorb(pool, seen, new).0.skip(pool.len() as int), pool.len())[k] == paper_entry(
            absorb(pool, seen, new).0[pool.len() + k],
            (pool.len() + k) as nat,
        ),
{
    lemma_absorb_len(pool, seen, new);
}

} // verus!
