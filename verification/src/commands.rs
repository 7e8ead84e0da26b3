//! What the application's commands decide: the context of a refinement, the
//! conversations that record searches, the export of papers, and the ids and events
//! they make.
use crate::sort::{stable_sort, stable_sorted, SortKey};
use crate::text::{dec, joined, prefix, string_views, words};
use crate::types::{
    conversation_message_views, paper_views, result_views, scored_views, Conversation, ConversationMessage,
    ConversationMessageView, ConversationView, EventView, Paper, PaperView, ProgressEvent, ResultView, ScoredPaper,
    ScoredPaperView, SearchResult,
};
use vstd::prelude::*;

verus! {

/// The error of an export in an unknown format.
pub const EXPORT_FORMAT_ERROR: &'static str = "Unsupported format. Use 'bibtex' or 'markdown'.";

/// The header of a Markdown export.
pub const MARKDOWN_HEADER: &'static str = "| # | Title | Authors | Year | Venue | Citations | Score |\n|---|-------|---------|------|-------|-----------|-------|\n";

// ── Refinements ──

/// The queries of the user in a conversation, in order.
pub open spec fn user_queries(ms: Seq<ConversationMessageView>) -> Seq<Seq<char>>
    decreases ms.len(),
{
    if ms.len() == 0 {
        seq![]
    } else {
        user_queries(ms.drop_last()) + if ms.last().role == "user"@ {
            seq![ms.last().content]
        } else {
            seq![]
        }
    }
}

/// The query that a refinement refines: the conversation's first user message, or
/// the refinement itself.
pub open spec fn original_query_of(conv: Option<ConversationView>, refinement: Seq<char>) -> Seq<char> {
    match conv {
        Some(c) => if user_queries(c.messages).len() > 0 {
            user_queries(c.messages)[0]
        } else {
            refinement
        },
        None => refinement,
    }
}

/// The refinements made before, in order: the user messages after the first.
pub open spec fn earlier_refinements(conv: Option<ConversationView>) -> Seq<Seq<char>> {
    match conv {
        Some(c) => if user_queries(c.messages).len() > 0 {
            user_queries(c.messages).skip(1)
        } else {
            seq![]
        },
        None => seq![],
    }
}

/// The refinement as the agent sees it: alone, or after the chain of earlier ones.
pub open spec fn refinement_text(earlier: Seq<Seq<char>>, refinement: Seq<char>) -> Seq<char> {
    if earlier.len() == 0 {
        "用户细化要求: "@ + refinement
    } else {
        "之前的细化链: "@ + joined(earlier, " → "@) + "\n当前最新细化: "@ + refinement
    }
}

/// The papers of a result: the highly relevant ones, then the partially relevant ones.
pub open spec fn result_papers(r: ResultView) -> Seq<PaperView> {
    r.tiers.high.map_values(|s: ScoredPaperView| s.paper) + r.tiers.partial.map_values(|s: ScoredPaperView| s.paper)
}

/// The papers of all results of a conversation, result by result.
pub open spec fn conversation_papers(results: Seq<ResultView>) -> Seq<PaperView>
    decreases results.len(),
{
    if results.len() == 0 {
        seq![]
    } else {
        conversation_papers(results.drop_last()) + result_papers(results.last())
    }
}

/// The views of an optional conversation.
pub open spec fn conv_view(conv: Option<&Conversation>) -> Option<ConversationView> {
    match conv {
        Some(c) => Some(c@),
        None => None,
    }
}

/// The user queries of a list of messages.
fn user_queries_exec(ms: &Vec<ConversationMessage>) -> (res: Vec<String>)
    ensures
        string_views(res@) == user_queries(conversation_message_views(ms@)),
{
    let ghost mv = conversation_message_views(ms@);
    let mut res: Vec<String> = Vec::new();
    let mut i: usize = 0;
    while i < ms.len()
        invariant
            i <= ms@.len(),
            mv == conversation_message_views(ms@),
            string_views(res@) == user_queries(mv.take(i as int)),
        decreases ms.len() - i,
    {
        assert(mv.take(i + 1).drop_last() =~= mv.take(i as int));
        assert(mv.take(i + 1).last() == ms@[i as int]@);
        let ghost r0 = string_views(res@);
        if crate::text::str_eq(ms[i].role.as_str(), "user") {
            res.push(ms[i].content.clone());
            assert(string_views(res@) =~= r0.push(ms@[i as int].content@));
        }
        i = i + 1;
    }
    assert(mv.take(ms@.len() as int) =~= mv);
    res
}

/// The query that a refinement refines.
pub fn original_query(conv: Option<&Conversation>, refinement: &str) -> (res: String)
    ensures
        res@ == original_query_of(conv_view(conv), refinement@),
{
    match conv {
        Some(c) => {
            let qs = user_queries_exec(&c.messages);
            if qs.len() > 0 {
                qs[0].clone()
            } else {
                crate::text::owned(refinement)
            }
        },
        None => crate::text::owned(refinement),
    }
}

/// The refinement as the agent sees it, with the chain of earlier refinements.
pub fn refinement_context(conv: Option<&Conversation>, refinement: &str) -> (res: String)
    ensures
        res@ == refinement_text(earlier_refinements(conv_view(conv)), refinement@),
{
    let mut earlier: Vec<String> = Vec::new();
    match conv {
        Some(c) => {
            let qs = user_queries_exec(&c.messages);
            let mut i: usize = 1;
            assert(qs@.len() > 0 ==> string_views(earlier@) =~= string_views(qs@).subrange(1, 1));
            while i < qs.len()
                invariant
                    1 <= i,
                    i <= qs@.len() || qs@.len() == 0,
                    qs@.len() > 0 ==> string_views(earlier@) == string_views(qs@).subrange(1, i as int),
                    qs@.len() == 0 ==> earlier@.len() == 0,
                decreases qs.len() - i,
            {
                let ghost e0 = string_views(earlier@);
                earlier.push(qs[i].clone());
                assert(string_views(earlier@) =~= e0.push(qs@[i as int]@));
                i = i + 1;
                assert(string_views(earlier@) =~= string_views(qs@).subrange(1, i as int));
            }
            if qs.len() > 0 {
                assert(string_views(earlier@) =~= string_views(qs@).skip(1));
            } else {
                assert(string_views(earlier@) =~= Seq::<Seq<char>>::empty());
            }
        },
        None => {
            assert(string_views(earlier@) =~= Seq::<Seq<char>>::empty());
        },
    }
    if earlier.len() == 0 {
        let mut s = crate::text::owned("用户细化要求: ");
        s.append(refinement);
        s
    } else {
        let mut s = crate::text::owned("之前的细化链: ");
        let chain = crate::text::join(&earlier, " → ");
        s.append(chain.as_str());
        s.append("\n当前最新细化: ");
        s.append(refinement);
        s
    }
}

/// The papers of all earlier results of a conversation, which a refinement starts from.
pub fn existing_papers(conv: Option<&Conversation>) -> (res: Vec<Paper>)
    ensures
        paper_views(res@) == match conv_view(conv) {
            Some(c) => conversation_papers(c.search_results),
            None => seq![],
        },
{
    let mut res: Vec<Paper> = Vec::new();
    match conv {
        Some(c) => {
            let ghost rv = result_views(c.search_results@);
            let mut i: usize = 0;
            while i < c.search_results.len()
                invariant
                    i <= c.search_results@.len(),
                    rv == result_views(c.search_results@),
                    paper_views(res@) == conversation_papers(rv.take(i as int)),
                decreases c.search_results.len() - i,
            {
                let r = &c.search_results[i];
                assert(rv.take(i + 1).drop_last() =~= rv.take(i as int));
                assert(rv.take(i + 1).last() == r@);
                let ghost p0 = paper_views(res@);
                let ghost hv = scored_views(r.tiers.high_relevance@);
                let mut k: usize = 0;
                while k < r.tiers.high_relevance.len()
                    invariant
                        k <= r.tiers.high_relevance@.len(),
                        hv == scored_views(r.tiers.high_relevance@),
                        paper_views(res@) == p0 + hv.take(k as int).map_values(|s: ScoredPaperView| s.paper),
                    decreases r.tiers.high_relevance.len() - k,
                {
                    let ghost q0 = paper_views(res@);
                    res.push(r.tiers.high_relevance[k].paper.clone());
                    assert(paper_views(res@) =~= q0.push(hv[k as int].paper));
                    k = k + 1;
                    assert(paper_views(res@) =~= p0 + hv.take(k as int).map_values(|s: ScoredPaperView| s.paper));
                }
                assert(hv.take(hv.len() as int) =~= hv);
                let ghost p1 = paper_views(res@);
                let ghost pv = scored_views(r.tiers.partial_relevance@);
                let mut k: usize = 0;
                while k < r.tiers.partial_relevance.len()
                    invariant
                        k <= r.tiers.partial_relevance@.len(),
                        pv == scored_views(r.tiers.partial_relevance@),
                        paper_views(res@) == p1 + pv.take(k as int).map_values(|s: ScoredPaperView| s.paper),
                    decreases r.tiers.partial_relevance.len() - k,
                {
                    let ghost q0 = paper_views(res@);
                    res.push(r.tiers.partial_relevance[k].paper.clone());
                    assert(paper_views(res@) =~= q0.push(pv[k as int].paper));
                    k = k + 1;
                    assert(paper_views(res@) =~= p1 + pv.take(k as int).map_values(|s: ScoredPaperView| s.paper));
                }
                assert(pv.take(pv.len() as int) =~= pv);
                i = i + 1;
                assert(paper_views(res@) =~= conversation_papers(rv.take(i as int)));
            }
            assert(rv.take(rv.len() as int) =~= rv);
        },
        None => {
            assert(paper_views(res@) =~= Seq::<PaperView>::empty());
        },
    }
    res
}

// ── Recording searches in conversations ──

/// A message of a conversation.
pub open spec fn message_view(role: Seq<char>, content: Seq<char>, timestamp: u64) -> ConversationMessageView {
    ConversationMessageView { role, content, timestamp }
}

/// A result with its conversation id set.
pub open spec fn with_conversation(r: ResultView, id: Seq<char>) -> ResultView {
    ResultView { conversation_id: id, ..r }
}

/// A message of a conversation.
fn message(role: &str, content: String, timestamp: u64) -> (res: ConversationMessage)
    ensures
        res@ == message_view(role@, content@, timestamp),
{
    ConversationMessage { role: crate::text::owned(role), content, timestamp }
}

/// Records a new search: the result gets the conversation's id, and the conversation
/// (titled by the first 50 characters of the query) holds the query, the summary and
/// the result, all at time `ts`. Returns the result and the conversation.
pub fn record_search(result: SearchResult, conversation_id: String, query: String, ts: u64) -> (res: (SearchResult, Conversation))
    ensures
        res.0@ == with_conversation(result@, conversation_id@),
        res.1@ == (ConversationView {
            id: conversation_id@,
            title: prefix(query@, 50),
            messages: seq![message_view("user"@, query@, ts), message_view("result"@, result.summary@, ts)],
            search_results: seq![with_conversation(result@, conversation_id@)],
            created_at: ts,
        }),
{
    let mut r = result;
    r.conversation_id = conversation_id.clone();
    let title = crate::text::take_chars(query.as_str(), 50);
    let m1 = message("user", query, ts);
    let m2 = message("result", r.summary.clone(), ts);
    let messages = vec![m1, m2];
    let results = vec![r.clone()];
    let conv = Conversation { id: conversation_id, title, messages, search_results: results, created_at: ts };
    assert(conversation_message_views(conv.messages@) =~= seq![m1@, m2@]);
    assert(result_views(conv.search_results@) =~= seq![r@]);
    (r, conv)
}

/// Records a refinement: the result gets the conversation's id; the conversation (a
/// new one, titled by the refinement, where none is given) gains the refinement, the
/// summary and the result, at time `ts`. Returns the result and the conversation.
pub fn record_refinement(
    conv: Option<Conversation>,
    conversation_id: String,
    refinement: String,
    result: SearchResult,
    ts: u64,
) -> (res: (SearchResult, Conversation))
    ensures
        res.0@ == with_conversation(result@, conversation_id@),
        ({
            let base = match conv {
                Some(c) => c@,
                None => ConversationView {
                    id: conversation_id@,
                    title: refinement@,
                    messages: seq![],
                    search_results: seq![],
                    created_at: ts,
                },
            };
            res.1@ == ConversationView {
                messages: base.messages.push(message_view("user"@, refinement@, ts)).push(
                    message_view("result"@, result.summary@, ts),
                ),
                search_results: base.search_results.push(with_conversation(result@, conversation_id@)),
                ..base
            }
        }),
{
    let mut r = result;
    r.conversation_id = conversation_id.clone();
    let mut c = match conv {
        Some(c) => c,
        None => {
            let c = Conversation {
                id: conversation_id,
                title: refinement.clone(),
                messages: Vec::new(),
                search_results: Vec::new(),
                created_at: ts,
            };
            assert(conversation_message_views(c.messages@) =~= Seq::<ConversationMessageView>::empty());
            assert(result_views(c.search_results@) =~= Seq::<ResultView>::empty());
            c
        },
    };
    let ghost m0 = conversation_message_views(c.messages@);
    let ghost r0 = result_views(c.search_results@);
    let m1 = message("user", refinement, ts);
    let m2 = message("result", r.summary.clone(), ts);
    c.messages.push(m1);
    c.messages.push(m2);
    c.search_results.push(r.clone());
    assert(conversation_message_views(c.messages@) =~= m0.push(m1@).push(m2@));
    assert(result_views(c.search_results@) =~= r0.push(r@));
    (r, c)
}

/// The position of the first conversation with id `id`.
pub fn find_conversation(convs: &Vec<Conversation>, id: &str) -> (res: Option<usize>)
    ensures
        match res {
            Some(i) => i < convs@.len() && convs@[i as int].id@ == id@ && forall|k: int| 0 <= k < i ==> #[trigger] convs@[k].id@ != id@,
            None => forall|k: int| 0 <= k < convs@.len() ==> #[trigger] convs@[k].id@ != id@,
        },
{
    let mut i: usize = 0;
    while i < convs.len()
        invariant
            i <= convs@.len(),
            forall|k: int| 0 <= k < i ==> #[trigger] convs@[k].id@ != id@,
        decreases convs.len() - i,
    {
        if crate::text::str_eq(convs[i].id.as_str(), id) {
            return Some(i);
        }
        i = i + 1;
    }
    None
}

/// The conversations without those whose id is `id`, in order.
pub open spec fn without_id(convs: Seq<Conversation>, id: Seq<char>) -> Seq<Conversation> {
    convs.filter(|c: Conversation| c.id@ != id)
}

/// Removes the conversations with id `id`, keeping the order of the others.
pub fn remove_conversation(convs: &mut Vec<Conversation>, id: &str)
    ensures
        final(convs)@ == without_id(old(convs)@, id@),
{
    let mut rest: Vec<Conversation> = Vec::new();
    std::mem::swap(&mut rest, convs);
    let ghost input = rest@;
    let ghost f = |c: Conversation| c.id@ != id@;
    let mut n: usize = 0;
    let total: usize = rest.len();
    assert(input.skip(0) =~= input);
    assert(input.take(0).filter(f) =~= Seq::<Conversation>::empty()) by {
        reveal_with_fuel(Seq::filter, 1);
    }
    while rest.len() > 0
        invariant
            n <= input.len(),
            input.len() == total,
            rest@.len() + n == input.len(),
            rest@ == input.skip(n as int),
            convs@ == input.take(n as int).filter(f),
            f == (|c: Conversation| c.id@ != id@),
        decreases rest.len(),
    {
        let c = rest.remove(0);
        assert(c == input[n as int]);
        assert(rest@ =~= input.skip(n + 1));
        assert(input.take(n + 1).drop_last() =~= input.take(n as int));
        assert(input.take(n + 1).last() == c);
        proof {
            reveal_with_fuel(Seq::filter, 1);
        }
        let ghost c0 = convs@;
        let ghost cv = c;
        if !crate::text::str_eq(c.id.as_str(), id) {
            convs.push(c);
            assert(convs@ =~= c0.push(cv));
        }
        n = n + 1;
    }
    assert(input.take(n as int) =~= input);
}

/// Puts a conversation first, in place of any with its id.
pub fn upsert_front(convs: &mut Vec<Conversation>, c: Conversation)
    ensures
        final(convs)@ == seq![c] + without_id(old(convs)@, c.id@),
{
    remove_conversation(convs, c.id.as_str());
    convs.insert(0, c);
    assert(convs@ =~= seq![c] + without_id(old(convs)@, c.id@));
}

impl SortKey for Conversation {
    open spec fn key(&self) -> u64 {
        self.created_at
    }

    fn sort_key(&self) -> (res: u64) {
        self.created_at
    }
}

/// The conversations, newest first; conversations of the same time keep their order.
pub fn sort_newest_first(convs: Vec<Conversation>) -> (res: Vec<Conversation>)
    ensures
        stable_sorted(convs@, res@, true),
        res@.len() == convs@.len(),
{
    stable_sort(convs, true)
}

// ── Export ──

/// The last word of an author's name, or "unknown" where it has none.
pub open spec fn surname(author: Seq<char>) -> Seq<char> {
    let w = words(author);
    if w.len() > 0 {
        w.last()
    } else {
        "unknown"@
    }
}

/// The citation key of a paper: the surname of its first author ("unknown" without
/// authors) and its year.
pub open spec fn bibtex_key(p: PaperView) -> Seq<char> {
    (if p.authors.len() > 0 {
        surname(p.authors[0])
    } else {
        "unknown"@
    }) + dec(p.year as nat)
}

/// The BibTeX entry of paper `i` of an export.
pub open spec fn bibtex_entry(sp: ScoredPaperView, i: nat) -> Seq<char> {
    let p = sp.paper;
    "@article{"@ + bibtex_key(p) + "_"@ + dec(i) + ",\n  title = {"@ + p.title + "},\n  author = {"@ + joined(
        p.authors,
        " and "@,
    ) + "},\n  year = {"@ + dec(p.year as nat) + "},\n  journal = {"@ + p.venue + "},\n  doi = {"@ + p.doi
        + "},\n  url = {"@ + p.url + "}\n}\n\n"@
}

/// The BibTeX export of a list of papers.
pub open spec fn bibtex_text(ps: Seq<ScoredPaperView>) -> Seq<char>
    decreases ps.len(),
{
    if ps.len() == 0 {
        seq![]
    } else {
        bibtex_text(ps.drop_last()) + bibtex_entry(ps.last(), (ps.len() - 1) as nat)
    }
}

/// The Markdown row of paper `i` of an export (numbered from 1).
pub open spec fn markdown_row(sp: ScoredPaperView, i: nat) -> Seq<char> {
    let p = sp.paper;
    "| "@ + dec(i + 1) + " | "@ + p.title + " | "@ + (if p.authors.len() > 0 {
        p.authors[0]
    } else {
        ""@
    }) + " | "@ + dec(p.year as nat) + " | "@ + p.venue + " | "@ + dec(p.citation_count as nat) + " | "@ + dec(
        sp.score as nat,
    ) + " |\n"@
}

/// The Markdown rows of a list of papers.
pub open spec fn markdown_rows(ps: Seq<ScoredPaperView>) -> Seq<char>
    decreases ps.len(),
{
    if ps.len() == 0 {
        seq![]
    } else {
        markdown_rows(ps.drop_last()) + markdown_row(ps.last(), (ps.len() - 1) as nat)
    }
}

/// The export of papers in a format: BibTeX, a Markdown table, or the error of an
/// unknown format.
pub open spec fn export_text(ps: Seq<ScoredPaperView>, format: Seq<char>) -> Result<Seq<char>, Seq<char>> {
    if format == "bibtex"@ {
        Ok(bibtex_text(ps))
    } else if format == "markdown"@ {
        Ok(MARKDOWN_HEADER@ + markdown_rows(ps))
    } else {
        Err(EXPORT_FORMAT_ERROR@)
    }
}

/// The BibTeX entry of a paper.
fn bibtex_entry_exec(sp: &ScoredPaper, i: usize) -> (res: String)
    ensures
        res@ == bibtex_entry(sp@, i as nat),
{
    let p = &sp.paper;
    let mut s = crate::text::owned("@article{");
    if p.authors.len() > 0 {
        let w = crate::text::split_ws(p.authors[0].as_str());
        if w.len() > 0 {
            s.append(w[w.len() - 1].as_str());
        } else {
            s.append("unknown");
        }
    } else {
        s.append("unknown");
    }
    crate::text::push_dec(&mut s, p.year as u64);
    s.append("_");
    crate::text::push_dec(&mut s, i as u64);
    s.append(",\n  title = {");
    s.append(p.title.as_str());
    s.append("},\n  author = {");
    let authors = crate::text::join(&p.authors, " and ");
    s.append(authors.as_str());
    s.append("},\n  year = {");
    crate::text::push_dec(&mut s, p.year as u64);
    s.append("},\n  journal = {");
    s.append(p.venue.as_str());
    s.append("},\n  doi = {");
    s.append(p.doi.as_str());
    s.append("},\n  url = {");
    s.append(p.url.as_str());
    s.append("}\n}\n\n");
    assert(s@ =~= bibtex_entry(sp@, i as nat));
    s
}

/// The Markdown row of a paper.
fn markdown_row_exec(sp: &ScoredPaper, i: usize) -> (res: String)
    requires
        i < usize::MAX,
    ensures
        res@ == markdown_row(sp@, i as nat),
{
    let p = &sp.paper;
    let mut s = crate::text::owned("| ");
    crate::text::push_dec(&mut s, (i + 1) as u64);
    s.append(" | ");
    s.append(p.title.as_str());
    s.append(" | ");
    if p.authors.len() > 0 {
        s.append(p.authors[0].as_str());
    }
    s.append(" | ");
    crate::text::push_dec(&mut s, p.year as u64);
    s.append(" | ");
    s.append(p.venue.as_str());
    s.append(" | ");
    crate::text::push_dec(&mut s, p.citation_count as u64);
    s.append(" | ");
    crate::text::push_dec(&mut s, sp.score as u64);
    s.append(" |\n");
    proof {
        reveal_strlit("");
    }
    assert(s@ =~= markdown_row(sp@, i as nat));
    s
}

/// Exports scored papers as BibTeX ("bibtex") or as a Markdown table ("markdown");
/// any other format is an error.
pub fn export_papers(papers: &Vec<ScoredPaper>, format: &str) -> (res: Result<String, String>)
    ensures
        match res {
            Ok(s) => export_text(scored_views(papers@), format@) == Ok::<Seq<char>, Seq<char>>(s@),
            Err(e) => export_text(scored_views(papers@), format@) == Err::<Seq<char>, Seq<char>>(e@),
        },
{
    let ghost sv = scored_views(papers@);
    if crate::text::str_eq(format, "bibtex") {
        let mut out = String::new();
        let mut i: usize = 0;
        while i < papers.len()
            invariant
                i <= papers@.len(),
                sv == scored_views(papers@),
                out@ == bibtex_text(sv.take(i as int)),
            decreases papers.len() - i,
        {
            assert(sv.take(i + 1).drop_last() =~= sv.take(i as int));
            let e = bibtex_entry_exec(&papers[i], i);
            out.append(e.as_str());
            i = i + 1;
        }
        assert(sv.take(papers@.len() as int) =~= sv);
        Ok(out)
    } else if crate::text::str_eq(format, "markdown") {
        let mut out = crate::text::owned(MARKDOWN_HEADER);
        let mut i: usize = 0;
        while i < papers.len()
            invariant
                i <= papers@.len(),
                sv == scored_views(papers@),
                out@ == MARKDOWN_HEADER@ + markdown_rows(sv.take(i as int)),
            decreases papers.len() - i,
        {
            assert(sv.take(i + 1).drop_last() =~= sv.take(i as int));
            let e = markdown_row_exec(&papers[i], i);
            out.append(e.as_str());
            i = i + 1;
        }
        assert(sv.take(papers@.len() as int) =~= sv);
        Ok(out)
    } else {
        Err(crate::text::owned(EXPORT_FORMAT_ERROR))
    }
}

// ── Conversation ids ──

/// `getrandom::getrandom` on a 16-byte buffer of zeros: the operating system's random
/// bytes. Nothing is claimed of their values; where the call reports an error the
/// error is ignored and the buffer is kept as it is.
#[verifier::external_body]
fn random_bytes() -> (res: Vec<u8>)
    ensures
        res@.len() == 16,
{
    let mut b = vec![0u8; 16];
    let _ = getrandom::getrandom(&mut b);
    b
}

/// The lower-case hexadecimal digit of `d` (below 16).
pub open spec fn lower_hex(d: u8) -> char {
    if d < 10 {
        ((48 + d) as u32) as char
    } else {
        ((87 + d) as u32) as char
    }
}

/// A byte as two lower-case hexadecimal digits.
pub open spec fn hex2(b: u8) -> Seq<char> {
    seq![lower_hex(b / 16), lower_hex(b % 16)]
}

/// Bytes `lo` up to `hi` as hexadecimal digits.
pub open spec fn hex_run(b: Seq<u8>, lo: int, hi: int) -> Seq<char>
    decreases hi - lo,
{
    if hi <= lo {
        seq![]
    } else {
        hex_run(b, lo, hi - 1) + hex2(b[hi - 1])
    }
}

/// The bytes of a random id with the version (4) and variant (10xx) bits set.
pub open spec fn v4_bytes(b: Seq<u8>) -> Seq<u8> {
    b.update(6, (b[6] & 0x0f) | 0x40).update(8, (b[8] & 0x3f) | 0x80)
}

/// The text of a UUID: 16 bytes in lower-case hexadecimal, grouped 4-2-2-2-6 with
/// dashes.
pub open spec fn uuid_text(b: Seq<u8>) -> Seq<char> {
    hex_run(b, 0, 4) + "-"@ + hex_run(b, 4, 6) + "-"@ + hex_run(b, 6, 8) + "-"@ + hex_run(b, 8, 10) + "-"@
        + hex_run(b, 10, 16)
}

/// Appends a lower-case hexadecimal digit.
fn push_hex_digit(s: &mut String, d: u8)
    requires
        d < 16,
    ensures
        final(s)@ == old(s)@.push(lower_hex(d)),
{
    let c: char = if d < 10 {
        (d + 48) as char
    } else {
        (d + 87) as char
    };
    crate::text::push_char(s, c);
}

/// Appends bytes `lo` up to `hi` in hexadecimal.
fn push_hex_run(s: &mut String, b: &Vec<u8>, lo: usize, hi: usize)
    requires
        lo <= hi <= b@.len(),
    ensures
        final(s)@ == old(s)@ + hex_run(b@, lo as int, hi as int),
{
    let mut i: usize = lo;
    assert(old(s)@ + hex_run(b@, lo as int, lo as int) =~= old(s)@);
    while i < hi
        invariant
            lo <= i <= hi <= b@.len(),
            s@ == old(s)@ + hex_run(b@, lo as int, i as int),
        decreases hi - i,
    {
        push_hex_digit(s, b[i] / 16);
        push_hex_digit(s, b[i] % 16);
        i = i + 1;
        assert(s@ =~= old(s)@ + hex_run(b@, lo as int, i as int));
    }
}

/// The text of a version 4 UUID made of 16 bytes: the version and variant bits set,
/// then the bytes in lower-case hexadecimal, grouped 8-4-4-4-12.
pub fn uuid_from_bytes(bytes: &Vec<u8>) -> (res: String)
    requires
        bytes@.len() == 16,
    ensures
        res@ == uuid_text(v4_bytes(bytes@)),
{
    let mut b: Vec<u8> = Vec::new();
    let mut i: usize = 0;
    while i < 16
        invariant
            i <= 16,
            bytes@.len() == 16,
            b@ == bytes@.take(i as int),
        decreases 16 - i,
    {
        b.push(bytes[i]);
        i = i + 1;
        assert(b@ =~= bytes@.take(i as int));
    }
    assert(b@ =~= bytes@);
    let b6 = (b[6] & 0x0f) | 0x40;
    let b8 = (b[8] & 0x3f) | 0x80;
    b.set(6, b6);
    b.set(8, b8);
    assert(b@ =~= v4_bytes(bytes@));
    let mut s = String::new();
    push_hex_run(&mut s, &b, 0, 4);
    s.append("-");
    push_hex_run(&mut s, &b, 4, 6);
    s.append("-");
    push_hex_run(&mut s, &b, 6, 8);
    s.append("-");
    push_hex_run(&mut s, &b, 8, 10);
    s.append("-");
    push_hex_run(&mut s, &b, 10, 16);
    proof {
        reveal_strlit("");
    }
    assert(s@ =~= uuid_text(v4_bytes(bytes@)));
    s
}

/// A fresh random conversation id: a version 4 UUID.
pub fn uuid_v4() -> (res: String)
    ensures
        exists|b: Seq<u8>| b.len() == 16 && res@ == uuid_text(v4_bytes(b)),
{
    let b = random_bytes();
    uuid_from_bytes(&b)
}

/// The id of a new search's conversation: the given one, else a fresh one.
pub fn pick_conversation_id(conversation_id: Option<String>) -> (res: String)
    ensures
        match conversation_id {
            Some(id) => res == id,
            None => exists|b: Seq<u8>| b.len() == 16 && res@ == uuid_text(v4_bytes(b)),
        },
{
    match conversation_id {
        Some(id) => id,
        None => uuid_v4(),
    }
}

// ── Events of the commands ──

/// The event that reports a failed search.
pub fn error_event(message: &str) -> (res: ProgressEvent)
    ensures
        res@ == (EventView { phase: "error"@, message: message@, percent: 0, detail: ""@, tokens: 0 }),
{
    let e = crate::progress::ev("error", message, 0, "", 0);
    proof {
        reveal_strlit("");
    }
    e
}

/// The event that reports that the user cancelled a search.
pub fn cancel_event() -> (res: ProgressEvent)
    ensures
        res@ == (EventView { phase: "cancelled"@, message: "用户取消了搜索"@, percent: 0, detail: ""@, tokens: 0 }),
{
    let e = crate::progress::ev("cancelled", "用户取消了搜索", 0, "", 0);
    proof {
        reveal_strlit("");
    }
    e
}

// ── What ids and conversation lists guarantee ──

/// The hexadecimal digits of a run of bytes: two per byte, the high half first.
proof fn lemma_hex_run(b: Seq<u8>, lo: int, hi: int)
    requires
        0 <= lo <= hi <= b.len(),
    ensures
        hex_run(b, lo, hi).len() == 2 * (hi - lo),
        forall|k: int| lo <= k < hi ==> #[trigger] hex_run(b, lo, hi)[2 * (k - lo)] == lower_hex(b[k] / 16),
    decreases hi - lo,
{
    if hi > lo {
        lemma_hex_run(b, lo, hi - 1);
        let r = hex_run(b, lo, hi - 1);
        assert forall|k: int| lo <= k < hi implies #[trigger] hex_run(b, lo, hi)[2 * (k - lo)] == lower_hex(b[k] / 16) by {
            if k < hi - 1 {
                assert(hex_run(b, lo, hi)[2 * (k - lo)] == r[2 * (k - lo)]);
            } else {
                assert(hex_run(b, lo, hi)[2 * (k - lo)] == hex2(b[hi - 1])[0]);
            }
        }
    }
}

/// A conversation id has the shape of a version 4 UUID: 36 characters, dashes at 8,
/// 13, 18 and 23, the version digit 4 at 14, and a variant digit 8, 9, a or b at 19.
pub proof fn lemma_uuid_shape(b: Seq<u8>)
    requires
        b.len() == 16,
    ensures
        uuid_text(v4_bytes(b)).len() == 36,
        uuid_text(v4_bytes(b))[8] == '-' && uuid_text(v4_bytes(b))[13] == '-',
        uuid_text(v4_bytes(b))[18] == '-' && uuid_text(v4_bytes(b))[23] == '-',
        uuid_text(v4_bytes(b))[14] == '4',
        uuid_text(v4_bytes(b))[19] == '8' || uuid_text(v4_bytes(b))[19] == '9' || uuid_text(v4_bytes(b))[19] == 'a'
            || uuid_text(v4_bytes(b))[19] == 'b',
{
    let v = v4_bytes(b);
    lemma_hex_run(v, 0, 4);
    lemma_hex_run(v, 4, 6);
    lemma_hex_run(v, 6, 8);
    lemma_hex_run(v, 8, 10);
    lemma_hex_run(v, 10, 16);
    let x6 = b[6];
    let x8 = b[8];
    assert(((x6 & 0x0f) | 0x40) / 16 == 4) by (bit_vector);
    assert(8 <= ((x8 & 0x3f) | 0x80) / 16 <= 11) by (bit_vector);
    assert(v[6] == (x6 & 0x0f) | 0x40);
    assert(v[8] == (x8 & 0x3f) | 0x80);
    reveal_strlit("-");
    let t = uuid_text(v);
    let a = hex_run(v, 0, 4) + "-"@ + hex_run(v, 4, 6) + "-"@;
    let b2 = a + hex_run(v, 6, 8) + "-"@;
    let c2 = b2 + hex_run(v, 8, 10) + "-"@;
    assert(a.len() == 14);
    assert(b2.len() == 19);
    assert(c2.len() == 24);
    assert(t == c2 + hex_run(v, 10, 16));
    assert(t[14] == hex_run(v, 6, 8)[0]);
    assert(hex_run(v, 6, 8)[2 * (6 - 6)] == lower_hex(v[6] / 16));
    assert(t[19] == hex_run(v, 8, 10)[0]);
    assert(hex_run(v, 8, 10)[2 * (8 - 8)] == lower_hex(v[8] / 16));
}

/// After `upsert_front`, the conversation is first and is the only one with its id.
pub proof fn lemma_upsert_unique(convs: Seq<Conversation>, c: Conversation)
    ensures
        (seq![c] + without_id(convs, c.id@))[0] == c,
        forall|i: int|
            1 <= i < (seq![c] + without_id(convs, c.id@)).len() ==> (#[trigger] (seq![c] + without_id(convs, c.id@))[i]).id@
                != c.id@,
{
    let f = |x: Conversation| x.id@ != c.id@;
    let w = convs.filter(f);
    assert forall|i: int| 1 <= i < (seq![c] + w).len() implies (#[trigger] (seq![c] + w)[i]).id@ != c.id@ by {
        assert((seq![c] + w)[i] == w[i - 1]);
        convs.lemma_filter_pred(f, i - 1);
    }
}

/// The papers a refinement starts from: one more earlier result adds its highly relevant
/// papers and then its partially relevant ones, in order, whatever either tier holds.
pub proof fn lemma_conversation_papers_step(results: Seq<ResultView>, r: ResultView)
    ensures
        conversation_papers(seq![]) == Seq::<PaperView>::empty(),
        conversation_papers(results.push(r)) == conversation_papers(results) + Seq::new(
            r.tiers.high.len(),
            |i: int| r.tiers.high[i].paper,
        ) + Seq::new(r.tiers.partial.len(), |i: int| r.tiers.partial[i].paper),
{
    assert(results.push(r).drop_last() =~= results);
    assert(result_papers(r) =~= Seq::new(r.tiers.high.len(), |i: int| r.tiers.high[i].paper) + Seq::new(
        r.tiers.partial.len(),
        |i: int| r.tiers.partial[i].paper,
    ));
}

/// Every paper of every tier of every earlier result is among the papers a refinement
/// starts from, whatever the other tier of that result holds.
pub proof fn lemma_conversation_papers_cover(results: Seq<ResultView>)
    ensures
        forall|i: int, j: int|
            0 <= i < results.len() && 0 <= j < results[i].tiers.high.len() ==> conversation_papers(results).contains(
                (#[trigger] results[i].tiers.high[j]).paper,
            ),
        forall|i: int, j: int|
            0 <= i < results.len() && 0 <= j < results[i].tiers.partial.len() ==> conversation_papers(results).contains(
                (#[trigger] results[i].tiers.partial[j]).paper,
            ),
    decreases results.len(),
{
    if results.len() > 0 {
        let pre = results.drop_last();
        let r = results.last();
        lemma_conversation_papers_cover(pre);
        lemma_conversation_papers_step(pre, r);
        assert(pre.push(r) =~= results);
        let c0 = conversation_papers(pre);
        let hs = Seq::new(r.tiers.high.len(), |k: int| r.tiers.high[k].paper);
        let ps = Seq::new(r.tiers.partial.len(), |k: int| r.tiers.partial[k].paper);
        let c = conversation_papers(results);
        assert(c == c0 + hs + ps);
        assert forall|i: int, j: int|
            0 <= i < results.len() && 0 <= j < results[i].tiers.high.len() implies c.contains(
                (#[trigger] results[i].tiers.high[j]).paper,
            ) by {
            if i < pre.len() {
                assert(pre[i] == results[i]);
                assert(c0.contains(pre[i].tiers.high[j].paper));
                let q = choose|q: int| 0 <= q < c0.len() && c0[q] == pre[i].tiers.high[j].paper;
                assert(c[q] == c0[q]);
            } else {
                assert(c[c0.len() + j] == hs[j]);
            }
        }
        assert forall|i: int, j: int|
            0 <= i < results.len() && 0 <= j < results[i].tiers.partial.len() implies c.contains(
                (#[trigger] results[i].tiers.partial[j]).paper,
            ) by {
            if i < pre.len() {
                assert(pre[i] == results[i]);
                assert(c0.contains(pre[i].tiers.partial[j].paper));
                let q = choose|q: int| 0 <= q < c0.len() && c0[q] == pre[i].tiers.partial[j].paper;
                assert(c[q] == c0[q]);
            } else {
                assert(c[c0.len() + hs.len() + j] == ps[j]);
            }
        }
    }
}

} // verus!
