//! The data the search agent exchanges: chat messages, tool calls, papers, scores,
//! results, progress events and conversations.
use crate::json::JsonValue;
use crate::text::string_views;
use vstd::prelude::*;

verus! {

// ── Chat messages (multi-turn, with tool calls) ──

/// One function call requested by the model.
#[derive(Debug)]
pub struct ToolCallFunction {
    pub name: String,
    /// The arguments, as JSON text.
    pub arguments: String,
}

impl Clone for ToolCallFunction {
    fn clone(&self) -> (res: Self)
        ensures
            res == *self,
    {
        ToolCallFunction { name: self.name.clone(), arguments: self.arguments.clone() }
    }
}

/// A tool call of an assistant message.
#[derive(Debug)]
pub struct ToolCall {
    pub id: String,
    /// Always "function" in practice.
    pub call_type: String,
    pub function: ToolCallFunction,
}

impl Clone for ToolCall {
    fn clone(&self) -> (res: Self)
        ensures
            res == *self,
    {
        ToolCall {
            id: self.id.clone(),
            call_type: self.call_type.clone(),
            function: self.function.clone(),
        }
    }
}

/// A copy of a list of tool calls, element for element.
pub fn clone_tool_calls(calls: &Vec<ToolCall>) -> (res: Vec<ToolCall>)
    ensures
        res@ == calls@,
{
    let mut res: Vec<ToolCall> = Vec::new();
    let mut i: usize = 0;
    while i < calls.len()
        invariant
            i <= calls@.len(),
            res@ == calls@.take(i as int),
        decreases calls.len() - i,
    {
        res.push(calls[i].clone());
        i = i + 1;
        assert(res@ =~= calls@.take(i as int));
    }
    assert(calls@.take(calls@.len() as int) =~= calls@);
    res
}

/// A message of a chat with the model. `role` is "system", "user", "assistant" or "tool".
#[derive(Debug)]
pub struct LlmMessage {
    pub role: String,
    pub content: Option<String>,
    pub tool_calls: Option<Vec<ToolCall>>,
    pub tool_call_id: Option<String>,
}

/// The characters of an optional string.
pub open spec fn opt_view(s: Option<String>) -> Option<Seq<char>> {
    match s {
        Some(x) => Some(x@),
        None => None,
    }
}

/// A message with the given role and text, and neither tool calls nor call id.
pub open spec fn is_text_message(m: LlmMessage, role: Seq<char>, content: Seq<char>) -> bool {
    &&& m.role@ == role
    &&& opt_view(m.content) == Some(content)
    &&& m.tool_calls is None
    &&& m.tool_call_id is None
}

impl LlmMessage {
    /// A system message.
    pub fn system(content: &str) -> (res: Self)
        ensures
            is_text_message(res, "system"@, content@),
    {
        LlmMessage {
            role: crate::text::owned("system"),
            content: Some(crate::text::owned(content)),
            tool_calls: None,
            tool_call_id: None,
        }
    }

    /// A user message.
    pub fn user(content: &str) -> (res: Self)
        ensures
            is_text_message(res, "user"@, content@),
    {
        LlmMessage {
            role: crate::text::owned("user"),
            content: Some(crate::text::owned(content)),
            tool_calls: None,
            tool_call_id: None,
        }
    }

    /// An assistant message with text.
    pub fn assistant(content: &str) -> (res: Self)
        ensures
            is_text_message(res, "assistant"@, content@),
    {
        LlmMessage {
            role: crate::text::owned("assistant"),
            content: Some(crate::text::owned(content)),
            tool_calls: None,
            tool_call_id: None,
        }
    }

    /// An assistant message that carries tool calls and no text.
    pub fn assistant_with_tools(tool_calls: Vec<ToolCall>) -> (res: Self)
        ensures
            res.role@ == "assistant"@,
            res.content is None,
            res.tool_calls == Some(tool_calls),
            res.tool_call_id is None,
    {
        LlmMessage {
            role: crate::text::owned("assistant"),
            content: None,
            tool_calls: Some(tool_calls),
            tool_call_id: None,
        }
    }

    /// The result of the tool call `call_id`.
    pub fn tool_result(call_id: String, content: String) -> (res: Self)
        ensures
            res.role@ == "tool"@,
            res.content == Some(content),
            res.tool_calls is None,
            res.tool_call_id == Some(call_id),
    {
        LlmMessage {
            role: crate::text::owned("tool"),
            content: Some(content),
            tool_calls: None,
            tool_call_id: Some(call_id),
        }
    }
}

/// What a chat message holds.
pub struct MessageView {
    pub role: Seq<char>,
    pub content: Option<Seq<char>>,
    pub tool_calls: Option<Seq<ToolCall>>,
    pub tool_call_id: Option<Seq<char>>,
}

impl View for LlmMessage {
    type V = MessageView;

    open spec fn view(&self) -> MessageView {
        MessageView {
            role: self.role@,
            content: opt_view(self.content),
            tool_calls: match self.tool_calls {
                Some(v) => Some(v@),
                None => None,
            },
            tool_call_id: opt_view(self.tool_call_id),
        }
    }
}

/// The views of a list of messages.
pub open spec fn message_views(s: Seq<LlmMessage>) -> Seq<MessageView> {
    s.map_values(|m: LlmMessage| m@)
}

/// A text message with the given role.
pub open spec fn text_msg(role: Seq<char>, content: Seq<char>) -> MessageView {
    MessageView { role, content: Some(content), tool_calls: None, tool_call_id: None }
}

/// The function part of a tool definition: its name, what it does, and the JSON
/// Schema of its parameters.
#[derive(Debug)]
pub struct ToolFnDef {
    pub name: String,
    pub description: String,
    pub parameters: JsonValue,
}

/// A tool offered to the model.
#[derive(Debug)]
pub struct ToolDef {
    /// Always "function".
    pub tool_type: String,
    pub function: ToolFnDef,
}

impl ToolDef {
    /// A function tool with the given name, description and parameter schema.
    pub fn new(name: &str, description: &str, parameters: JsonValue) -> (res: Self)
        ensures
            res.tool_type@ == "function"@,
            res.function.name@ == name@,
            res.function.description@ == description@,
            res.function.parameters == parameters,
    {
        ToolDef {
            tool_type: crate::text::owned("function"),
            function: ToolFnDef {
                name: crate::text::owned(name),
                description: crate::text::owned(description),
                parameters,
            },
        }
    }
}

// ── Papers and results ──

/// Constraints of a query plan.
#[derive(Debug)]
pub struct QueryConstraints {
    pub year_range: Option<(u32, u32)>,
    pub venues: Vec<String>,
    pub methodology_required: Vec<String>,
}

/// A paper as the search backends return it.
#[derive(Debug)]
pub struct Paper {
    pub id: String,
    pub title: String,
    pub authors: Vec<String>,
    pub year: u32,
    pub venue: String,
    pub doi: String,
    pub abstract_text: String,
    pub citation_count: u32,
    pub url: String,
}

/// What a paper holds, by the characters of its strings.
pub struct PaperView {
    pub id: Seq<char>,
    pub title: Seq<char>,
    pub authors: Seq<Seq<char>>,
    pub year: u32,
    pub venue: Seq<char>,
    pub doi: Seq<char>,
    pub abstract_text: Seq<char>,
    pub citation_count: u32,
    pub url: Seq<char>,
}

impl View for Paper {
    type V = PaperView;

    open spec fn view(&self) -> PaperView {
        PaperView {
            id: self.id@,
            title: self.title@,
            authors: string_views(self.authors@),
            year: self.year,
            venue: self.venue@,
            doi: self.doi@,
            abstract_text: self.abstract_text@,
            citation_count: self.citation_count,
            url: self.url@,
        }
    }
}

/// A copy of a list of strings, element for element.
pub fn clone_strings(v: &Vec<String>) -> (res: Vec<String>)
    ensures
        res@ == v@,
{
    let mut res: Vec<String> = Vec::new();
    let mut i: usize = 0;
    while i < v.len()
        invariant
            i <= v@.len(),
            res@ == v@.take(i as int),
        decreases v.len() - i,
    {
        res.push(v[i].clone());
        i = i + 1;
        assert(res@ =~= v@.take(i as int));
    }
    assert(v@.take(v@.len() as int) =~= v@);
    res
}

impl Clone for Paper {
    fn clone(&self) -> (res: Self)
        ensures
            res@ == self@,
    {
        Paper {
            id: self.id.clone(),
            title: self.title.clone(),
            authors: clone_strings(&self.authors),
            year: self.year,
            venue: self.venue.clone(),
            doi: self.doi.clone(),
            abstract_text: self.abstract_text.clone(),
            citation_count: self.citation_count,
            url: self.url.clone(),
        }
    }
}

/// The views of a list of papers.
pub open spec fn paper_views(s: Seq<Paper>) -> Seq<PaperView> {
    s.map_values(|p: Paper| p@)
}

/// A paper with its relevance score (1-10) and the reason for it.
#[derive(Debug)]
pub struct ScoredPaper {
    pub paper: Paper,
    pub score: u8,
    pub rationale: String,
}

/// What a scored paper holds.
pub struct ScoredPaperView {
    pub paper: PaperView,
    pub score: u8,
    pub rationale: Seq<char>,
}

impl View for ScoredPaper {
    type V = ScoredPaperView;

    open spec fn view(&self) -> ScoredPaperView {
        ScoredPaperView { paper: self.paper@, score: self.score, rationale: self.rationale@ }
    }
}

impl Clone for ScoredPaper {
    fn clone(&self) -> (res: Self)
        ensures
            res@ == self@,
    {
        ScoredPaper {
            paper: self.paper.clone(),
            score: self.score,
            rationale: self.rationale.clone(),
        }
    }
}

/// The views of a list of scored papers.
pub open spec fn scored_views(s: Seq<ScoredPaper>) -> Seq<ScoredPaperView> {
    s.map_values(|p: ScoredPaper| p@)
}

/// Results in two tiers: highly and partially relevant.
#[derive(Debug)]
pub struct TieredResults {
    pub high_relevance: Vec<ScoredPaper>,
    pub partial_relevance: Vec<ScoredPaper>,
}

/// The outcome of a search.
#[derive(Debug)]
pub struct SearchResult {
    pub conversation_id: String,
    pub summary: String,
    pub tiers: TieredResults,
    pub total_candidates: usize,
    pub rounds_used: u32,
    pub needs_clarification: bool,
    pub clarification_options: Vec<String>,
}

/// A step of a running search, shown to the user.
#[derive(Debug)]
pub struct ProgressEvent {
    pub phase: String,
    pub message: String,
    pub percent: u8,
    pub detail: String,
    /// The total of tokens used so far.
    pub tokens: u32,
}

/// What a progress event holds.
pub struct EventView {
    pub phase: Seq<char>,
    pub message: Seq<char>,
    pub percent: u8,
    pub detail: Seq<char>,
    pub tokens: u32,
}

impl View for ProgressEvent {
    type V = EventView;

    open spec fn view(&self) -> EventView {
        EventView {
            phase: self.phase@,
            message: self.message@,
            percent: self.percent,
            detail: self.detail@,
            tokens: self.tokens,
        }
    }
}

/// The views of a list of events.
pub open spec fn event_views(s: Seq<ProgressEvent>) -> Seq<EventView> {
    s.map_values(|e: ProgressEvent| e@)
}

/// An edge of the topic graph.
#[derive(Debug)]
pub struct GraphEdge {
    pub source: usize,
    pub target: usize,
    pub relation: String,
}

/// A node of the topic graph: a paper, with its tier as cluster (0 high, 1 partial).
#[derive(Debug)]
pub struct GraphNode {
    pub index: usize,
    pub title: String,
    pub cluster: u8,
}

/// A topic graph over the results.
#[derive(Debug)]
pub struct GraphData {
    pub nodes: Vec<GraphNode>,
    pub edges: Vec<GraphEdge>,
}

// ── Conversation ──

/// A message of a conversation; `role` is "user", "assistant" or "result".
#[derive(Debug)]
pub struct ConversationMessage {
    pub role: String,
    pub content: String,
    pub timestamp: u64,
}

/// A conversation: the queries of the user and the results of each search.
#[derive(Debug)]
pub struct Conversation {
    pub id: String,
    pub title: String,
    pub messages: Vec<ConversationMessage>,
    pub search_results: Vec<SearchResult>,
    pub created_at: u64,
}

// ── Views and copies of results and conversations ──

/// What a list of tiers holds.
pub struct TiersView {
    pub high: Seq<ScoredPaperView>,
    pub partial: Seq<ScoredPaperView>,
}

impl View for TieredResults {
    type V = TiersView;

    open spec fn view(&self) -> TiersView {
        TiersView { high: scored_views(self.high_relevance@), partial: scored_views(self.partial_relevance@) }
    }
}

/// A copy of a list of scored papers.
pub fn clone_scored(v: &Vec<ScoredPaper>) -> (res: Vec<ScoredPaper>)
    ensures
        scored_views(res@) == scored_views(v@),
{
    let mut res: Vec<ScoredPaper> = Vec::new();
    let mut i: usize = 0;
    while i < v.len()
        invariant
            i <= v@.len(),
            scored_views(res@) == scored_views(v@).take(i as int),
        decreases v.len() - i,
    {
        let ghost r0 = scored_views(res@);
        let c = v[i].clone();
        res.push(c);
        assert(scored_views(res@) =~= r0.push(v@[i as int]@));
        i = i + 1;
        assert(scored_views(res@) =~= scored_views(v@).take(i as int));
    }
    assert(scored_views(v@).take(v@.len() as int) =~= scored_views(v@));
    res
}

impl Clone for TieredResults {
    fn clone(&self) -> (res: Self)
        ensures
            res@ == self@,
    {
        TieredResults {
            high_relevance: clone_scored(&self.high_relevance),
            partial_relevance: clone_scored(&self.partial_relevance),
        }
    }
}

/// What a search result holds.
pub struct ResultView {
    pub conversation_id: Seq<char>,
    pub summary: Seq<char>,
    pub tiers: TiersView,
    pub total_candidates: usize,
    pub rounds_used: u32,
    pub needs_clarification: bool,
    pub clarification_options: Seq<Seq<char>>,
}

impl View for SearchResult {
    type V = ResultView;

    open spec fn view(&self) -> ResultView {
        ResultView {
            conversation_id: self.conversation_id@,
            summary: self.summary@,
            tiers: self.tiers@,
            total_candidates: self.total_candidates,
            rounds_used: self.rounds_used,
            needs_clarification: self.needs_clarification,
            clarification_options: string_views(self.clarification_options@),
        }
    }
}

impl Clone for SearchResult {
    fn clone(&self) -> (res: Self)
        ensures
            res@ == self@,
    {
        SearchResult {
            conversation_id: self.conversation_id.clone(),
            summary: self.summary.clone(),
            tiers: self.tiers.clone(),
            total_candidates: self.total_candidates,
            rounds_used: self.rounds_used,
            needs_clarification: self.needs_clarification,
            clarification_options: clone_strings(&self.clarification_options),
        }
    }
}

/// The views of a list of results.
pub open spec fn result_views(s: Seq<SearchResult>) -> Seq<ResultView> {
    s.map_values(|r: SearchResult| r@)
}

/// What a conversation message holds.
pub struct ConversationMessageView {
    pub role: Seq<char>,
    pub content: Seq<char>,
    pub timestamp: u64,
}

impl View for ConversationMessage {
    type V = ConversationMessageView;

    open spec fn view(&self) -> ConversationMessageView {
        ConversationMessageView { role: self.role@, content: self.content@, timestamp: self.timestamp }
    }
}

/// The views of a list of conversation messages.
pub open spec fn conversation_message_views(s: Seq<ConversationMessage>) -> Seq<ConversationMessageView> {
    s.map_values(|m: ConversationMessage| m@)
}

impl Clone for ConversationMessage {
    fn clone(&self) -> (res: Self)
        ensures
            res@ == self@,
    {
        ConversationMessage { role: self.role.clone(), content: self.content.clone(), timestamp: self.timestamp }
    }
}

/// What a conversation holds.
pub struct ConversationView {
    pub id: Seq<char>,
    pub title: Seq<char>,
    pub messages: Seq<ConversationMessageView>,
    pub search_results: Seq<ResultView>,
    pub created_at: u64,
}

impl View for Conversation {
    type V = ConversationView;

    open spec fn view(&self) -> ConversationView {
        ConversationView {
            id: self.id@,
            title: self.title@,
            messages: conversation_message_views(self.messages@),
            search_results: result_views(self.search_results@),
            created_at: self.created_at,
        }
    }
}

impl Clone for Conversation {
    fn clone(&self) -> (res: Self)
        ensures
            res@ == self@,
    {
        let mut messages: Vec<ConversationMessage> = Vec::new();
        let mut i: usize = 0;
        while i < self.messages.len()
            invariant
                i <= self.messages@.len(),
                conversation_message_views(messages@) == conversation_message_views(self.messages@).take(i as int),
            decreases self.messages.len() - i,
        {
            let ghost m0 = conversation_message_views(messages@);
            messages.push(self.messages[i].clone());
            assert(conversation_message_views(messages@) =~= m0.push(self.messages@[i as int]@));
            i = i + 1;
            assert(conversation_message_views(messages@) =~= conversation_message_views(self.messages@).take(i as int));
        }
        let mut results: Vec<SearchResult> = Vec::new();
        let mut j: usize = 0;
        while j < self.search_results.len()
            invariant
                j <= self.search_results@.len(),
                result_views(results@) == result_views(self.search_results@).take(j as int),
            decreases self.search_results.len() - j,
        {
            let ghost r0 = result_views(results@);
            results.push(self.search_results[j].clone());
            assert(result_views(results@) =~= r0.push(self.search_results@[j as int]@));
            j = j + 1;
            assert(result_views(results@) =~= result_views(self.search_results@).take(j as int));
        }
        assert(conversation_message_views(self.messages@).take(self.messages@.len() as int) =~= conversation_message_views(self.messages@));
        assert(result_views(self.search_results@).take(self.search_results@.len() as int) =~= result_views(self.search_results@));
        Conversation {
            id: self.id.clone(),
            title: self.title.clone(),
            messages,
            search_results: results,
            created_at: self.created_at,
        }
    }
}

} // verus!
