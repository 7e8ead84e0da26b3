//! The search agent as a state machine: each step takes what the outside world
//! returned (a model reply, fetched papers, scores, a summary) and decides the next
//! state, the progress events to show, and the next outside call to make.
use crate::config::AppConfig;
use crate::llm::ChatResponse;
use crate::orchestrator::{
    batch_count, batch_of, batch_prompt, batch_prompt_text, build_partial_result, cancel_result_ok,
    drop_papers, keep_after_drops, opening_message, opening_message_ok, parse_batch_scores, start_event,
    start_event_exec, CLARIFY_PARSE_ERROR, EMPTY_SUMMARY, FORCE_MSG, LLM_BUDGET_MSG, NUDGE_FINISH, NUDGE_SEARCH,
    NUDGE_SEARCH_READY, POOL_EMPTY_MSG, POOL_FULL_MSG, POOL_LIMIT, SEARCH_BUDGET_MSG, SYSTEM_PROMPT,
};
use crate::progress::{
    detail_text, detail_views, ev, flag_member, num_member, papers_in_result, render_detail, text_member,
    tool_call_text, DetailView,
};
use crate::text::{byte_count, dec, joined, prefix, string_views};
use crate::json::{json_parsed, JsonValue};
use crate::ranker::{is_high, is_partial, scored_entries};
use crate::result_organizer::{summary_prompt_text, ResultOrganizer};
use crate::sort::stable_sorted;
use crate::tools::{
    absorb, clarify_options, finish_drops, paper_key, request_label, search_results_text, str_or, tool_args,
    tool_step_ok, u64_or, ToolRequest, ToolStep,
};
use crate::types::{
    event_views, message_views, paper_views, scored_views, text_msg, EventView, LlmMessage, MessageView, Paper,
    PaperView, ProgressEvent, ScoredPaper, ScoredPaperView, SearchResult, TieredResults, ToolCall,
};
use vstd::prelude::*;

verus! {

/// The orchestration of a search.
pub struct Orchestrator;

/// Where a search stands.
#[derive(Debug)]
pub enum Stage {
    /// A new round: budget checks, then a model call.
    RoundStart,
    /// Waiting for the model's reply of a round.
    AwaitReply { round_pct: u8 },
    /// Handling the tool calls of a reply, from call `next` on.
    Tools { calls: Vec<ToolCall>, next: usize, round_pct: u8 },
    /// Waiting for the papers that call `next` fetches.
    AwaitFetch { calls: Vec<ToolCall>, next: usize, round_pct: u8, request: ToolRequest },
    /// The agent called `finish_search` with these arguments (where they could be read).
    Finishing { finish: Option<(String, Vec<usize>)> },
    /// Waiting for the last, forced, model reply.
    AwaitForced,
    /// Waiting for the scores of the batches.
    AwaitScores { batch_count: usize },
    /// Waiting for the summary of the tiers.
    AwaitSummary { tiers: TieredResults },
    /// The search is over.
    Finished,
}

/// The outside call that a step asks for.
#[derive(Debug)]
pub enum Action {
    /// Take the next step at once (`proceed`).
    Proceed,
    /// Call the model with the run's messages and the agent's tools (`on_reply`, or
    /// `on_forced_reply` after a forced call).
    CallLlm,
    /// Fetch papers from the search backend (`on_fetch`).
    Fetch(ToolRequest),
    /// Score the batches with these user prompts, one model call each (`on_scores`).
    ScoreBatches(Vec<String>),
    /// Summarize with this user prompt (`on_summary`).
    Summarize(String),
    /// The search is over, with this outcome.
    Finish(Result<SearchResult, String>),
}

/// The events to show and the next call.
#[derive(Debug)]
pub struct Step {
    pub events: Vec<ProgressEvent>,
    pub action: Action,
}

/// A running search.
#[derive(Debug)]
pub struct AgentRun {
    pub query: String,
    pub max_llm_calls: u32,
    pub max_search_calls: u32,
    pub llm_calls: u32,
    pub search_calls: u32,
    pub total_tokens: u32,
    /// The papers gathered, in order; the agent names them by position.
    pub paper_list: Vec<Paper>,
    /// The keys of every paper ever added.
    pub seen_keys: Vec<String>,
    pub messages: Vec<LlmMessage>,
    pub stage: Stage,
}

// ── The invariant of the pool ──

/// The pool and the seen keys agree: the seen keys are distinct, every paper's key has
/// been seen, and no two papers of the pool share a key.
pub open spec fn pool_ok(pool: Seq<PaperView>, seen: Seq<Seq<char>>) -> bool {
    &&& seen.no_duplicates()
    &&& forall|i: int| 0 <= i < pool.len() ==> seen.contains(paper_key(#[trigger] pool[i]))
    &&& forall|i: int, j: int| 0 <= i < j < pool.len() ==> paper_key(#[trigger] pool[i]) != paper_key(#[trigger] pool[j])
}

/// Adding papers keeps the pool and the seen keys in agreement.
pub proof fn lemma_absorb_pool_ok(pool: Seq<PaperView>, seen: Seq<Seq<char>>, new: Seq<PaperView>)
    requires
        pool_ok(pool, seen),
    ensures
        pool_ok(absorb(pool, seen, new).0, absorb(pool, seen, new).1),
    decreases new.len(),
{
    if new.len() > 0 {
        lemma_absorb_pool_ok(pool, seen, new.drop_last());
        let (l, s) = absorb(pool, seen, new.drop_last());
        let p = new.last();
        if !s.contains(paper_key(p)) {
            let l2 = l.push(p);
            let s2 = s.push(paper_key(p));
            assert forall|i: int| 0 <= i < l2.len() implies s2.contains(paper_key(#[trigger] l2[i])) by {
                if i < l.len() {
                    assert(l2[i] == l[i]);
                    let k = choose|k: int| 0 <= k < s.len() && s[k] == paper_key(l[i]);
                    assert(s2[k] == s[k]);
                } else {
                    assert(s2[s.len() as int] == paper_key(p));
                }
            }
            assert forall|i: int, j: int| 0 <= i < j < l2.len() implies paper_key(#[trigger] l2[i]) != paper_key(#[trigger] l2[j]) by {
                if j == l.len() {
                    assert(l2[i] == l[i]);
                    assert(s.contains(paper_key(l[i])));
                } else {
                    assert(l2[i] == l[i] && l2[j] == l[j]);
                }
            }
            assert(s2.no_duplicates()) by {
                assert forall|i: int, j: int| 0 <= i < s2.len() && 0 <= j < s2.len() && i != j implies s2[i] != s2[j] by {
                    if i == s.len() as int {
                        assert(s[j] == s2[j]);
                    } else if j == s.len() as int {
                        assert(s[i] == s2[i]);
                    } else {
                        assert(s[i] == s2[i] && s[j] == s2[j]);
                    }
                }
            }
        }
    }
}

/// `key` is the key of a paper of the pool.
pub open spec fn key_in_pool(pool: Seq<PaperView>, key: Seq<char>) -> bool {
    exists|i: int| 0 <= i < pool.len() && #[trigger] paper_key(pool[i]) == key
}

/// Every seen key is the key of a paper of the pool.
pub open spec fn seen_in_pool(pool: Seq<PaperView>, seen: Seq<Seq<char>>) -> bool {
    forall|k: int| 0 <= k < seen.len() ==> key_in_pool(pool, #[trigger] seen[k])
}

/// The seen keys, taken as a set, are exactly the keys of the pool, and the pool's keys
/// are distinct.
pub open spec fn keys_exact(pool: Seq<PaperView>, seen: Seq<Seq<char>>) -> bool {
    &&& forall|i: int| 0 <= i < pool.len() ==> seen.contains(paper_key(#[trigger] pool[i]))
    &&& forall|i: int, j: int| 0 <= i < j < pool.len() ==> paper_key(#[trigger] pool[i]) != paper_key(#[trigger] pool[j])
    &&& seen_in_pool(pool, seen)
}

/// Where the seen keys, as a set, are exactly the keys of the pool and the pool's keys
/// are distinct, adding papers keeps both, and the old pool stays a prefix of the new
/// one; seen keys without repeats stay without repeats.
pub proof fn lemma_absorb_keys_exact(pool: Seq<PaperView>, seen: Seq<Seq<char>>, new: Seq<PaperView>)
    requires
        keys_exact(pool, seen),
    ensures
        keys_exact(absorb(pool, seen, new).0, absorb(pool, seen, new).1),
        absorb(pool, seen, new).0.take(pool.len() as int) == pool,
        seen.no_duplicates() ==> absorb(pool, seen, new).1.no_duplicates(),
    decreases new.len(),
{
    if seen.no_duplicates() {
        lemma_absorb_pool_ok(pool, seen, new);
    }
    crate::tools::lemma_absorb_len(pool, seen, new);
    if new.len() > 0 {
        lemma_absorb_keys_exact(pool, seen, new.drop_last());
        let (l, s) = absorb(pool, seen, new.drop_last());
        let p = new.last();
        if s.contains(paper_key(p)) {
            assert(absorb(pool, seen, new) == (l, s));
        } else {
            let l2 = l.push(p);
            let s2 = s.push(paper_key(p));
            assert(absorb(pool, seen, new) == (l2, s2));
            assert forall|i: int| 0 <= i < l2.len() implies s2.contains(paper_key(#[trigger] l2[i])) by {
                if i < l.len() {
                    assert(l2[i] == l[i]);
                    let k = choose|k: int| 0 <= k < s.len() && s[k] == paper_key(l[i]);
                    assert(s2[k] == s[k]);
                } else {
                    assert(s2[s.len() as int] == paper_key(p));
                }
            }
            assert forall|i: int, j: int| 0 <= i < j < l2.len() implies paper_key(#[trigger] l2[i]) != paper_key(#[trigger] l2[j]) by {
                if j == l.len() {
                    assert(l2[i] == l[i]);
                    assert(s.contains(paper_key(l[i])));
                } else {
                    assert(l2[i] == l[i] && l2[j] == l[j]);
                }
            }
            assert forall|k: int| 0 <= k < s2.len() implies key_in_pool(l2, #[trigger] s2[k]) by {
                if k < s.len() {
                    assert(s2[k] == s[k]);
                    assert(key_in_pool(l, s[k]));
                    let i = choose|i: int| 0 <= i < l.len() && #[trigger] paper_key(l[i]) == s[k];
                    assert(l2[i] == l[i]);
                    assert(paper_key(l2[i]) == s2[k]);
                } else {
                    assert(l2[l.len() as int] == p);
                    assert(paper_key(l2[l.len() as int]) == s2[k]);
                }
            }
        }
    }
}

/// The papers kept after drops come from the pool.
proof fn lemma_keep_from_pool<T>(pool: Seq<T>, drops: Seq<usize>)
    ensures
        forall|i: int| 0 <= i < keep_after_drops(pool, drops).len() ==> pool.contains(#[trigger] keep_after_drops(pool, drops)[i]),
        keep_after_drops(pool, drops).len() <= pool.len(),
    decreases pool.len(),
{
    if pool.len() > 0 {
        let pre = pool.drop_last();
        lemma_keep_from_pool(pre, drops);
        let r = keep_after_drops(pre, drops);
        let k = keep_after_drops(pool, drops);
        assert forall|i: int| 0 <= i < k.len() implies pool.contains(#[trigger] k[i]) by {
            if i < r.len() {
                assert(k[i] == r[i]);
                assert(pre.contains(r[i]));
                let j = choose|j: int| 0 <= j < pre.len() && pre[j] == r[i];
                assert(pool[j] == pre[j]);
            } else {
                assert(k[i] == pool[pool.len() - 1]);
            }
        }
    }
}

/// Dropping papers keeps the pool and the seen keys in agreement.
pub proof fn lemma_drops_pool_ok(pool: Seq<PaperView>, seen: Seq<Seq<char>>, drops: Seq<usize>)
    requires
        pool_ok(pool, seen),
    ensures
        pool_ok(keep_after_drops(pool, drops), seen),
    decreases pool.len(),
{
    if pool.len() > 0 {
        let pre = pool.drop_last();
        assert(pool_ok(pre, seen)) by {
            assert forall|i: int| 0 <= i < pre.len() implies seen.contains(paper_key(#[trigger] pre[i])) by {
                assert(pre[i] == pool[i]);
            }
            assert forall|i: int, j: int| 0 <= i < j < pre.len() implies paper_key(#[trigger] pre[i]) != paper_key(#[trigger] pre[j]) by {
                assert(pre[i] == pool[i] && pre[j] == pool[j]);
            }
        }
        lemma_drops_pool_ok(pre, seen, drops);
        lemma_keep_from_pool(pre, drops);
        let r = keep_after_drops(pre, drops);
        if !drops.contains((pool.len() - 1) as usize) {
            let k = r.push(pool.last());
            assert(keep_after_drops(pool, drops) == k);
            assert forall|i: int| 0 <= i < k.len() implies seen.contains(paper_key(#[trigger] k[i])) by {
                if i < r.len() {
                    assert(k[i] == r[i]);
                } else {
                    assert(k[i] == pool[pool.len() - 1]);
                }
            }
            assert forall|i: int, j: int| 0 <= i < j < k.len() implies paper_key(#[trigger] k[i]) != paper_key(#[trigger] k[j]) by {
                if j == r.len() {
                    assert(k[i] == r[i]);
                    assert(pre.contains(r[i]));
                    let q = choose|q: int| 0 <= q < pre.len() && pre[q] == r[i];
                    assert(pool[q] == pre[q]);
                    assert(k[j] == pool[pool.len() - 1]);
                } else {
                    assert(k[i] == r[i] && k[j] == r[j]);
                }
            }
        }
    }
}

/// Dropping commutes with taking the views of the papers.
proof fn lemma_keep_views(pool: Seq<Paper>, drops: Seq<usize>)
    ensures
        paper_views(keep_after_drops(pool, drops)) == keep_after_drops(paper_views(pool), drops),
    decreases pool.len(),
{
    if pool.len() > 0 {
        lemma_keep_views(pool.drop_last(), drops);
        assert(paper_views(pool).drop_last() =~= paper_views(pool.drop_last()));
        let r = keep_after_drops(pool.drop_last(), drops);
        assert(paper_views(r.push(pool.last())) =~= paper_views(r).push(pool.last()@));
    }
}

impl AgentRun {
    /// The run is consistent: pool and seen keys agree, and a pending tool call is one
    /// of the reply's calls.
    pub open spec fn wf(&self) -> bool {
        &&& pool_ok(paper_views(self.paper_list@), string_views(self.seen_keys@))
        &&& match self.stage {
            Stage::AwaitReply { round_pct } => round_pct <= 45,
            Stage::Tools { calls, next, round_pct } => next <= calls@.len() && round_pct <= 45,
            Stage::AwaitFetch { calls, next, round_pct, .. } => next < calls@.len() && round_pct <= 45,
            Stage::AwaitSummary { tiers } => tiers.high_relevance@.len() + tiers.partial_relevance@.len() <= usize::MAX,
            _ => true,
        }
    }

    /// The views of the papers of the pool.
    pub open spec fn pool(&self) -> Seq<PaperView> {
        paper_views(self.paper_list@)
    }

    /// The views of the seen keys.
    pub open spec fn seen(&self) -> Seq<Seq<char>> {
        string_views(self.seen_keys@)
    }

    /// The views of the messages.
    pub open spec fn msgs(&self) -> Seq<MessageView> {
        message_views(self.messages@)
    }
}

// ── Events of the rounds ──

/// An event without detail.
pub open spec fn plain_event(phase: Seq<char>, message: Seq<char>, percent: u8, tokens: u32) -> EventView {
    EventView { phase, message, percent, detail: ""@, tokens }
}

/// The progress percentage of a round: 8, plus up to 37 in proportion of the model
/// calls made.
pub open spec fn round_percent(llm_calls: u32, max_llm_calls: u32) -> u8 {
    let p: int = (llm_calls as int * 37) / (max_llm_calls as int);
    (8 + (if p < 37 {
        p
    } else {
        37
    })) as u8
}

/// The progress of a round lies between 8 and 45 percent.
pub proof fn lemma_round_percent(llm_calls: u32, max_llm_calls: u32)
    requires
        max_llm_calls > 0,
    ensures
        8 <= round_percent(llm_calls, max_llm_calls) <= 45,
{
    let p: int = (llm_calls as int * 37) / (max_llm_calls as int);
    assert(p >= 0) by (nonlinear_arith)
        requires
            llm_calls >= 0,
            max_llm_calls > 0,
            p == (llm_calls as int * 37) / (max_llm_calls as int),
    ;
}

/// The warnings at the start of a round: the pool is full (80 papers), the model
/// budget is spent, the search budget is spent.
pub open spec fn warning_events(n: nat, l: u32, ml: u32, s: u32, ms: u32, t: u32) -> Seq<EventView> {
    (if n >= 80 {
        seq![plain_event("budget_warn"@, "论文池已达 "@ + dec(n) + " 篇上限，要求 Agent 输出结果…"@, 48, t)]
    } else {
        seq![]
    }) + (if l >= ml {
        seq![plain_event("budget_warn"@, "LLM 调用次数已达上限 ("@ + dec(ml as nat) + ")，结束搜索阶段…"@, 45, t)]
    } else {
        seq![]
    }) + (if s >= ms {
        seq![plain_event("budget_warn"@, "搜索调用次数已达上限 ("@ + dec(ms as nat) + ")，结束搜索阶段…"@, 45, t)]
    } else {
        seq![]
    })
}

/// The messages that go with the warnings.
pub open spec fn warning_messages(n: nat, l: u32, ml: u32, s: u32, ms: u32) -> Seq<MessageView> {
    (if n >= 80 {
        seq![text_msg("user"@, POOL_FULL_MSG@)]
    } else {
        seq![]
    }) + (if l >= ml {
        seq![text_msg("user"@, LLM_BUDGET_MSG@)]
    } else {
        seq![]
    }) + (if s >= ms {
        seq![text_msg("user"@, SEARCH_BUDGET_MSG@)]
    } else {
        seq![]
    })
}

/// The event of a round's model call.
pub open spec fn think_event(l: u32, n: nat, s: u32, pct: u8, t: u32) -> EventView {
    EventView {
        phase: "agent_think"@,
        message: "🤔 Agent 思考中 (第 "@ + dec(l as nat + 1) + " 轮)…"@,
        percent: pct,
        detail: detail_text(seq![
            ("round"@, DetailView::Num((l + 1) as u64)),
            ("papers_so_far"@, DetailView::Num(n as u64)),
            ("llm_calls"@, DetailView::Num(l as u64)),
            ("search_calls"@, DetailView::Num(s as u64)),
        ]),
        tokens: t,
    }
}

/// A plain event.
fn plain(phase: &str, message: &str, percent: u8, tokens: u32) -> (res: ProgressEvent)
    ensures
        res@ == plain_event(phase@, message@, percent, tokens),
{
    let e = ev(phase, message, percent, "", tokens);
    proof {
        reveal_strlit("");
    }
    e
}

/// Appends a user message.
fn push_user(messages: &mut Vec<LlmMessage>, text: &str)
    ensures
        message_views(final(messages)@) == message_views(old(messages)@).push(text_msg("user"@, text@)),
{
    let m = LlmMessage::user(text);
    let ghost m0 = message_views(messages@);
    messages.push(m);
    assert(message_views(messages@) =~= m0.push(text_msg("user"@, text@)));
}

/// Appends an event.
fn push_event(events: &mut Vec<ProgressEvent>, e: ProgressEvent)
    ensures
        event_views(final(events)@) == event_views(old(events)@).push(e@),
{
    let ghost e0 = event_views(events@);
    events.push(e);
    assert(event_views(events@) =~= e0.push(e@));
}

impl AgentRun {
    /// The warnings at the start of a round, with their messages.
    fn warn(&mut self, events: &mut Vec<ProgressEvent>)
        ensures
            event_views(final(events)@) == event_views(old(events)@) + warning_events(
                old(self).paper_list@.len(),
                old(self).llm_calls,
                old(self).max_llm_calls,
                old(self).search_calls,
                old(self).max_search_calls,
                old(self).total_tokens,
            ),
            final(self).msgs() == old(self).msgs() + warning_messages(
                old(self).paper_list@.len(),
                old(self).llm_calls,
                old(self).max_llm_calls,
                old(self).search_calls,
                old(self).max_search_calls,
            ),
            final(self).paper_list == old(self).paper_list,
            final(self).seen_keys == old(self).seen_keys,
            final(self).stage == old(self).stage,
            final(self).query == old(self).query,
            final(self).llm_calls == old(self).llm_calls,
            final(self).search_calls == old(self).search_calls,
            final(self).total_tokens == old(self).total_tokens,
            final(self).max_llm_calls == old(self).max_llm_calls,
            final(self).max_search_calls == old(self).max_search_calls,
    {
        let ghost e0 = event_views(events@);
        let ghost m0 = self.msgs();
        let t = self.total_tokens;
        let n = self.paper_list.len();
        let ghost we1: Seq<EventView> = if n >= 80 {
            seq![plain_event("budget_warn"@, "论文池已达 "@ + dec(n as nat) + " 篇上限，要求 Agent 输出结果…"@, 48, t)]
        } else {
            seq![]
        };
        let ghost wm1: Seq<MessageView> = if n >= 80 {
            seq![text_msg("user"@, POOL_FULL_MSG@)]
        } else {
            seq![]
        };
        if n >= POOL_LIMIT {
            let mut msg = crate::text::owned("论文池已达 ");
            crate::text::push_dec(&mut msg, n as u64);
            msg.append(" 篇上限，要求 Agent 输出结果…");
            push_event(events, plain("budget_warn", msg.as_str(), 48, t));
            push_user(&mut self.messages, POOL_FULL_MSG);
        }
        assert(event_views(events@) =~= e0 + we1);
        assert(self.msgs() =~= m0 + wm1);
        let ghost e1 = event_views(events@);
        let ghost m1 = self.msgs();
        if self.llm_calls >= self.max_llm_calls {
            let mut msg = crate::text::owned("LLM 调用次数已达上限 (");
            crate::text::push_dec(&mut msg, self.max_llm_calls as u64);
            msg.append(")，结束搜索阶段…");
            push_event(events, plain("budget_warn", msg.as_str(), 45, t));
            push_user(&mut self.messages, LLM_BUDGET_MSG);
        }
        let ghost e2 = event_views(events@);
        let ghost m2 = self.msgs();
        if self.search_calls >= self.max_search_calls {
            let mut msg = crate::text::owned("搜索调用次数已达上限 (");
            crate::text::push_dec(&mut msg, self.max_search_calls as u64);
            msg.append(")，结束搜索阶段…");
            push_event(events, plain("budget_warn", msg.as_str(), 45, t));
            push_user(&mut self.messages, SEARCH_BUDGET_MSG);
        }
        assert(event_views(events@) =~= e0 + warning_events(
            n as nat,
            self.llm_calls,
            self.max_llm_calls,
            self.search_calls,
            self.max_search_calls,
            t,
        ));
        assert(self.msgs() =~= m0 + warning_messages(
            n as nat,
            self.llm_calls,
            self.max_llm_calls,
            self.search_calls,
            self.max_search_calls,
        ));
    }
}

impl Orchestrator {
    /// Starts a search for `query`, with the budget of `config`, an optional refinement,
    /// and the papers of earlier rounds: those papers fill the pool (without repeated
    /// keys), and the messages are the system prompt and the opening message.
    pub fn start(
        query: String,
        config: &AppConfig,
        refinement: Option<&str>,
        existing_papers: &[Paper],
    ) -> (res: (AgentRun, Vec<ProgressEvent>))
        ensures
            res.0.wf(),
            res.0.query == query,
            res.0.max_llm_calls == config.budget.max_llm_calls,
            res.0.max_search_calls == config.budget.max_search_calls,
            res.0.llm_calls == 0,
            res.0.search_calls == 0,
            res.0.total_tokens == 0,
            (res.0.pool(), res.0.seen()) == absorb(seq![], seq![], paper_views(existing_papers@)),
            res.0.stage is RoundStart,
            res.0.msgs().len() == 2,
            res.0.msgs()[0] == text_msg("system"@, SYSTEM_PROMPT@),
            res.0.msgs()[1].role == "user"@,
            res.0.msgs()[1].tool_calls is None && res.0.msgs()[1].tool_call_id is None,
            res.0.msgs()[1].content matches Some(m) && opening_message_ok(m, query@, match refinement {
                Some(r) => Some(r@),
                None => None,
            }, res.0.pool()),
            event_views(res.1@) == seq![start_event(query@, res.0.pool().len())],
    {
        let mut paper_list: Vec<Paper> = Vec::new();
        let mut seen_keys: Vec<String> = Vec::new();
        let mut existing: Vec<Paper> = Vec::new();
        let mut i: usize = 0;
        while i < existing_papers.len()
            invariant
                i <= existing_papers@.len(),
                paper_views(existing@) == paper_views(existing_papers@).take(i as int),
            decreases existing_papers.len() - i,
        {
            let ghost e0 = paper_views(existing@);
            existing.push(existing_papers[i].clone());
            assert(paper_views(existing@) =~= e0.push(existing_papers@[i as int]@));
            i = i + 1;
            assert(paper_views(existing@) =~= paper_views(existing_papers@).take(i as int));
        }
        assert(paper_views(existing_papers@).take(existing_papers@.len() as int) =~= paper_views(existing_papers@));
        proof {
            assert(paper_views(paper_list@) =~= Seq::<PaperView>::empty());
            assert(string_views(seen_keys@) =~= Seq::<Seq<char>>::empty());
            assert(pool_ok(seq![], seq![]));
            lemma_absorb_pool_ok(seq![], seq![], paper_views(existing_papers@));
            crate::tools::lemma_absorb_len(seq![], seq![], paper_views(existing_papers@));
        }
        let _added = crate::tools::absorb_papers(&mut paper_list, &mut seen_keys, existing);
        let user_msg = opening_message(query.as_str(), refinement, &paper_list);
        let start_ev = start_event_exec(query.as_str(), paper_list.len());
        let messages = vec![LlmMessage::system(SYSTEM_PROMPT), LlmMessage::user(user_msg.as_str())];
        let run = AgentRun {
            query,
            max_llm_calls: config.budget.max_llm_calls,
            max_search_calls: config.budget.max_search_calls,
            llm_calls: 0,
            search_calls: 0,
            total_tokens: 0,
            paper_list,
            seen_keys,
            messages,
            stage: Stage::RoundStart,
        };
        let events = vec![start_ev];
        assert(event_views(events@) =~= seq![start_ev@]);
        (run, events)
    }
}

// ── Round start ──

/// A round starts: the warnings; then, where the user cancelled, the search ends with
/// the papers gathered so far, ranked by citations; else the model is called.
pub open spec fn round_start_ok(o: AgentRun, r: AgentRun, cancelled: bool, step: Step) -> bool {
    let n = o.paper_list@.len();
    let w = warning_events(n, o.llm_calls, o.max_llm_calls, o.search_calls, o.max_search_calls, o.total_tokens);
    &&& r.msgs() == o.msgs() + warning_messages(n, o.llm_calls, o.max_llm_calls, o.search_calls, o.max_search_calls)
    &&& r.query == o.query
    &&& r.llm_calls == o.llm_calls && r.search_calls == o.search_calls && r.total_tokens == o.total_tokens
    &&& r.max_llm_calls == o.max_llm_calls && r.max_search_calls == o.max_search_calls
    &&& if cancelled {
        &&& r.stage is Finished
        &&& event_views(step.events@).take((w.len() + 1) as int) == w.push(plain_event("cancelled"@, "搜索被用户取消"@, 50, o.total_tokens))
        &&& step.action matches Action::Finish(res) && cancel_result_ok(
            res,
            event_views(step.events@).skip((w.len() + 1) as int),
            o.paper_list@,
            o.llm_calls,
            o.total_tokens,
        )
    } else {
        let pct = round_percent(o.llm_calls, o.max_llm_calls);
        &&& r.paper_list == o.paper_list && r.seen_keys == o.seen_keys
        &&& r.stage == Stage::AwaitReply { round_pct: pct }
        &&& step.action is CallLlm
        &&& event_views(step.events@) == w.push(think_event(o.llm_calls, n, o.search_calls, pct, o.total_tokens))
    }
}

/// The round's progress percentage.
fn round_pct_exec(llm_calls: u32, max_llm_calls: u32) -> (res: u8)
    requires
        max_llm_calls > 0,
    ensures
        res == round_percent(llm_calls, max_llm_calls),
        8 <= res <= 45,
{
    let p: u64 = (llm_calls as u64 * 37) / (max_llm_calls as u64);
    let q: u64 = if p < 37 {
        p
    } else {
        37
    };
    (8 + q) as u8
}

// ── Model replies ──

/// The text of a reply ("" where it has none).
pub open spec fn reply_text(resp: ChatResponse) -> Seq<char> {
    match resp.content {
        Some(c) => c@,
        None => ""@,
    }
}

/// The event that shows what the model thought: its text (cut to 400 characters, with
/// "…" where it is longer than 400 bytes) where it is longer than 10 bytes; else the
/// tool calls it decided on; else nothing.
pub open spec fn thought_events(thinking: Seq<char>, calls: Option<Vec<ToolCall>>, pct: u8, t: u32) -> Seq<EventView> {
    let len = byte_count(thinking);
    if len > 10 {
        seq![EventView {
            phase: "agent_thought"@,
            message: if len > 400 {
                prefix(thinking, 400) + "…"@
            } else {
                prefix(thinking, 400)
            },
            percent: pct,
            detail: detail_text(seq![("full_length"@, DetailView::Num(len as u64)), ("truncated"@, DetailView::Flag(len > 400))]),
            tokens: t,
        }]
    } else {
        match calls {
            Some(tcs) => seq![EventView {
                phase: "agent_thought"@,
                message: "Agent 决定: "@ + joined(
                    Seq::new(tcs@.len(), |i: int| tool_call_text(tcs@[i].function.name@, tcs@[i].function.arguments@)),
                    "；"@,
                ),
                percent: pct,
                detail: detail_text(seq![("synthetic"@, DetailView::Flag(true))]),
                tokens: t,
            }],
            None => seq![],
        }
    }
}

/// The assistant message that records a reply: its tool calls, or its text.
pub open spec fn assistant_view(resp: ChatResponse) -> MessageView {
    match resp.tool_calls {
        Some(tcs) => MessageView { role: "assistant"@, content: None, tool_calls: Some(tcs@), tool_call_id: None },
        None => text_msg("assistant"@, reply_text(resp)),
    }
}

/// The reply of a round: counted with its tokens, shown, recorded; its tool calls are
/// handled next, and without any the agent is nudged and a new round starts.
pub open spec fn reply_ok(o: AgentRun, r: AgentRun, resp: ChatResponse, step: Step) -> bool {
    let pct = o.stage->AwaitReply_round_pct;
    let t2 = (o.total_tokens + resp.tokens) as u32;
    let th = reply_text(resp);
    let short = byte_count(th) < 30;
    &&& r.llm_calls == o.llm_calls + 1
    &&& r.total_tokens == t2
    &&& r.search_calls == o.search_calls
    &&& r.paper_list == o.paper_list && r.seen_keys == o.seen_keys && r.query == o.query
    &&& r.max_llm_calls == o.max_llm_calls && r.max_search_calls == o.max_search_calls
    &&& event_views(step.events@) == thought_events(th, resp.tool_calls, pct, t2)
    &&& step.action is Proceed
    &&& match resp.tool_calls {
        Some(tcs) => if tcs@.len() > 0 {
            r.msgs() == o.msgs().push(assistant_view(resp)) && r.stage == (Stage::Tools { calls: tcs, next: 0, round_pct: pct })
        } else {
            r.msgs() == o.msgs().push(assistant_view(resp)).push(text_msg("user"@, if short {
                NUDGE_SEARCH_READY@
            } else {
                NUDGE_FINISH@
            })) && r.stage is RoundStart
        },
        None => r.msgs() == o.msgs().push(assistant_view(resp)).push(text_msg("user"@, if short {
            NUDGE_SEARCH@
        } else {
            NUDGE_FINISH@
        })) && r.stage is RoundStart,
    }
}

/// The description of a list of tool calls, joined by "；".
fn describe_calls(calls: &Vec<ToolCall>) -> (res: String)
    ensures
        res@ == joined(
            Seq::new(calls@.len(), |i: int| tool_call_text(calls@[i].function.name@, calls@[i].function.arguments@)),
            "；"@,
        ),
{
    let ghost items = Seq::new(calls@.len(), |i: int| tool_call_text(calls@[i].function.name@, calls@[i].function.arguments@));
    let mut parts: Vec<String> = Vec::new();
    let mut i: usize = 0;
    while i < calls.len()
        invariant
            i <= calls@.len(),
            items == Seq::new(calls@.len(), |k: int| tool_call_text(calls@[k].function.name@, calls@[k].function.arguments@)),
            string_views(parts@) == items.take(i as int),
        decreases calls.len() - i,
    {
        let d = crate::progress::fmt_tool_args(calls[i].function.name.as_str(), calls[i].function.arguments.as_str());
        let ghost before = string_views(parts@);
        parts.push(d);
        assert(string_views(parts@) =~= before.push(d@));
        i = i + 1;
        assert(string_views(parts@) =~= items.take(i as int));
    }
    assert(items.take(calls@.len() as int) =~= items);
    crate::text::join(&parts, "；")
}

/// The thought event of a reply, if any.
fn thought(thinking: &str, calls: &Option<Vec<ToolCall>>, pct: u8, t: u32, events: &mut Vec<ProgressEvent>)
    ensures
        event_views(final(events)@) == event_views(old(events)@) + thought_events(thinking@, *calls, pct, t),
{
    let ghost e0 = event_views(events@);
    let len = thinking.len();
    if len > 10 {
        let snippet = crate::text::take_chars(thinking, 400);
        let mut msg = snippet;
        if len > 400 {
            msg.append("…");
        }
        let members = vec![num_member("full_length", len as u64), flag_member("truncated", len > 400)];
        let detail = render_detail(&members);
        assert(detail_views(members@) =~= seq![("full_length"@, DetailView::Num(len as u64)), ("truncated"@, DetailView::Flag(len > 400))]);
        push_event(events, ev("agent_thought", msg.as_str(), pct, detail.as_str(), t));
        assert(event_views(events@) =~= e0 + thought_events(thinking@, *calls, pct, t));
    } else {
        match calls {
            Some(tcs) => {
                let mut msg = crate::text::owned("Agent 决定: ");
                let d = describe_calls(tcs);
                msg.append(d.as_str());
                let members = vec![flag_member("synthetic", true)];
                let detail = render_detail(&members);
                assert(detail_views(members@) =~= seq![("synthetic"@, DetailView::Flag(true))]);
                push_event(events, ev("agent_thought", msg.as_str(), pct, detail.as_str(), t));
                assert(event_views(events@) =~= e0 + thought_events(thinking@, *calls, pct, t));
            },
            None => {
                assert(event_views(events@) =~= e0 + thought_events(thinking@, *calls, pct, t));
            },
        }
    }
}

impl AgentRun {
    /// Starts a round (stage `RoundStart`), given whether the user cancelled.
    fn begin_round(&mut self, cancelled: bool) -> (step: Step)
        requires
            old(self).wf(),
            old(self).stage is RoundStart,
            !cancelled ==> old(self).llm_calls < u32::MAX,
            !cancelled ==> old(self).max_llm_calls > 0,
        ensures
            final(self).wf(),
            round_start_ok(*old(self), *final(self), cancelled, step),
    {
        let mut events: Vec<ProgressEvent> = Vec::new();
        assert(event_views(events@) =~= Seq::<EventView>::empty());
        self.warn(&mut events);
        let ghost w = event_views(events@);
        let t = self.total_tokens;
        if cancelled {
            push_event(&mut events, plain("cancelled", "搜索被用户取消", 50, t));
            let ghost w1 = event_views(events@);
            let mut pool: Vec<Paper> = Vec::new();
            std::mem::swap(&mut pool, &mut self.paper_list);
            let (res, more) = build_partial_result(pool, self.llm_calls, t);
            let ghost m = event_views(more@);
            let mut more = more;
            events.append(&mut more);
            assert(event_views(events@) =~= w1 + m);
            assert(event_views(events@).take((w.len() + 1) as int) =~= w1);
            assert(event_views(events@).skip((w.len() + 1) as int) =~= m);
            self.stage = Stage::Finished;
            proof {
                assert(paper_views(self.paper_list@) =~= Seq::<PaperView>::empty());
            }
            return Step { events, action: Action::Finish(res) };
        }
        let pct = round_pct_exec(self.llm_calls, self.max_llm_calls);
        let mut msg = crate::text::owned("🤔 Agent 思考中 (第 ");
        crate::text::push_dec(&mut msg, (self.llm_calls + 1) as u64);
        msg.append(" 轮)…");
        let members = vec![
            num_member("round", (self.llm_calls + 1) as u64),
            num_member("papers_so_far", self.paper_list.len() as u64),
            num_member("llm_calls", self.llm_calls as u64),
            num_member("search_calls", self.search_calls as u64),
        ];
        let detail = render_detail(&members);
        assert(detail_views(members@) =~= seq![
            ("round"@, DetailView::Num((self.llm_calls + 1) as u64)),
            ("papers_so_far"@, DetailView::Num(self.paper_list@.len() as u64)),
            ("llm_calls"@, DetailView::Num(self.llm_calls as u64)),
            ("search_calls"@, DetailView::Num(self.search_calls as u64)),
        ]);
        push_event(&mut events, ev("agent_think", msg.as_str(), pct, detail.as_str(), t));
        self.stage = Stage::AwaitReply { round_pct: pct };
        Step { events, action: Action::CallLlm }
    }

    /// Takes the model's reply of a round (stage `AwaitReply`).
    pub fn on_reply(&mut self, resp: ChatResponse) -> (step: Step)
        requires
            old(self).wf(),
            old(self).stage is AwaitReply,
            old(self).llm_calls < u32::MAX,
            old(self).total_tokens + resp.tokens <= u32::MAX,
        ensures
            final(self).wf(),
            reply_ok(*old(self), *final(self), resp, step),
    {
        let ghost o = *self;
        let pct = match self.stage {
            Stage::AwaitReply { round_pct } => round_pct,
            _ => 0,
        };
        self.llm_calls = self.llm_calls + 1;
        self.total_tokens = self.total_tokens + resp.tokens;
        let t = self.total_tokens;
        let thinking = match &resp.content {
            Some(c) => c.clone(),
            None => String::new(),
        };
        proof {
            reveal_strlit("");
            assert(thinking@ == reply_text(resp));
        }
        let mut events: Vec<ProgressEvent> = Vec::new();
        assert(event_views(events@) =~= Seq::<EventView>::empty());
        thought(thinking.as_str(), &resp.tool_calls, pct, t, &mut events);
        assert(event_views(events@) =~= thought_events(reply_text(resp), resp.tool_calls, pct, t));
        let ghost m0 = self.msgs();
        let short = thinking.as_str().len() < 30;
        match resp.tool_calls {
            Some(tcs) => {
                let copy = crate::types::clone_tool_calls(&tcs);
                let am = LlmMessage::assistant_with_tools(copy);
                self.messages.push(am);
                assert(self.msgs() =~= m0.push(assistant_view(resp)));
                if tcs.len() > 0 {
                    self.stage = Stage::Tools { calls: tcs, next: 0, round_pct: pct };
                } else {
                    if short {
                        push_user(&mut self.messages, NUDGE_SEARCH_READY);
                    } else {
                        push_user(&mut self.messages, NUDGE_FINISH);
                    }
                    self.stage = Stage::RoundStart;
                }
            },
            None => {
                let am = LlmMessage::assistant(thinking.as_str());
                self.messages.push(am);
                assert(self.msgs() =~= m0.push(assistant_view(resp)));
                if short {
                    push_user(&mut self.messages, NUDGE_SEARCH);
                } else {
                    push_user(&mut self.messages, NUDGE_FINISH);
                }
                self.stage = Stage::RoundStart;
            },
        }
        Step { events, action: Action::Proceed }
    }
}

// ── Forcing the end of the search phase, and entering the scoring phase ──

/// Whether both budgets are spent.
pub open spec fn budget_spent(o: AgentRun) -> bool {
    o.llm_calls >= o.max_llm_calls && o.search_calls >= o.max_search_calls
}

/// After the tool calls of a round: where both budgets are spent, one last model call
/// asks the agent to finish; else a new round starts.
pub open spec fn force_ok(o: AgentRun, r: AgentRun, events: Seq<EventView>, msgs: Seq<MessageView>, action: Action) -> bool {
    if budget_spent(o) {
        &&& events == seq![plain_event("force_finish"@, "预算耗尽，强制结束搜索阶段…"@, 48, o.total_tokens)]
        &&& msgs == seq![text_msg("user"@, FORCE_MSG@)]
        &&& r.stage is AwaitForced
        &&& action is CallLlm
    } else {
        &&& events.len() == 0
        &&& msgs.len() == 0
        &&& r.stage is RoundStart
        &&& action is Proceed
    }
}

/// The event that opens the scoring of `n` papers in `bc` batches.
pub open spec fn rank_event(n: nat, bc: nat, t: u32) -> EventView {
    EventView {
        phase: "rank"@,
        message: "⭐ AI 逐批评分为 "@ + dec(n) + " 篇论文打分 ("@ + dec(bc) + " 批，每批 20 篇)…"@,
        percent: 55,
        detail: detail_text(seq![("total"@, DetailView::Num(n as u64)), ("batches"@, DetailView::Num(bc as u64))]),
        tokens: t,
    }
}

/// The event of batch `b` of `bc`.
pub open spec fn batch_event(pool: Seq<Paper>, b: int, bc: nat, t: u32) -> EventView {
    plain_event(
        "rank_batch"@,
        "启动评分第 "@ + dec((b + 1) as nat) + "/"@ + dec(bc) + " 批 ("@ + dec(batch_of(pool, b).len()) + " 篇)…"@,
        58,
        t,
    )
}

/// The result of a search that ends without papers.
pub open spec fn empty_result_ok(res: SearchResult, l: u32) -> bool {
    &&& res.summary@ == EMPTY_SUMMARY@
    &&& res.tiers.high_relevance@.len() == 0 && res.tiers.partial_relevance@.len() == 0
    &&& res.total_candidates == 0
    &&& res.rounds_used == l
    &&& !res.needs_clarification
    &&& res.clarification_options@.len() == 0
    &&& res.conversation_id@.len() == 0
}

/// The scoring phase starts over the pool `pool`: without papers the search ends;
/// else the papers are scored in batches of 20, one model call per batch.
pub open spec fn scoring_ok(
    pool: Seq<Paper>,
    query: Seq<char>,
    l: u32,
    t: u32,
    events: Seq<EventView>,
    action: Action,
    stage: Stage,
) -> bool {
    let n = pool.len();
    if n == 0 {
        &&& events == seq![EventView {
            phase: "done"@,
            message: "预算耗尽且未找到论文。请尝试放宽约束。"@,
            percent: 100,
            detail: detail_text(seq![("high"@, DetailView::Num(0)), ("partial"@, DetailView::Num(0))]),
            tokens: t,
        }]
        &&& action matches Action::Finish(Ok(res)) && empty_result_ok(res, l)
        &&& stage is Finished
    } else {
        let bc = batch_count(n);
        &&& events == seq![rank_event(n, bc, t)] + Seq::new(bc, |b: int| batch_event(pool, b, bc, t))
        &&& action matches Action::ScoreBatches(ps) && ps@.len() == bc && forall|b: int|
            0 <= b < bc ==> (#[trigger] ps@[b])@ == batch_prompt_text(paper_views(batch_of(pool, b)), query)
        &&& stage == (Stage::AwaitScores { batch_count: bc as usize })
    }
}

impl AgentRun {
    /// The end of a round's tool calls.
    fn force_or_next_round(&mut self, events: &mut Vec<ProgressEvent>) -> (action: Action)
        ensures
            force_ok(
                *old(self),
                *final(self),
                event_views(final(events)@).skip(old(events)@.len() as int),
                final(self).msgs().skip(old(self).messages@.len() as int),
                action,
            ),
            event_views(final(events)@).take(old(events)@.len() as int) == event_views(old(events)@),
            final(self).msgs().take(old(self).messages@.len() as int) == old(self).msgs(),
            final(self).paper_list == old(self).paper_list && final(self).seen_keys == old(self).seen_keys,
            final(self).query == old(self).query,
            final(self).llm_calls == old(self).llm_calls && final(self).search_calls == old(self).search_calls,
            final(self).total_tokens == old(self).total_tokens,
            final(self).max_llm_calls == old(self).max_llm_calls && final(self).max_search_calls == old(self).max_search_calls,
    {
        let ghost e0 = event_views(events@);
        let ghost m0 = self.msgs();
        if self.llm_calls >= self.max_llm_calls && self.search_calls >= self.max_search_calls {
            push_event(events, plain("force_finish", "预算耗尽，强制结束搜索阶段…", 48, self.total_tokens));
            push_user(&mut self.messages, FORCE_MSG);
            self.stage = Stage::AwaitForced;
            assert(event_views(events@).skip(e0.len() as int) =~= seq![plain_event("force_finish"@, "预算耗尽，强制结束搜索阶段…"@, 48, self.total_tokens)]);
            assert(event_views(events@).take(e0.len() as int) =~= e0);
            assert(self.msgs().skip(m0.len() as int) =~= seq![text_msg("user"@, FORCE_MSG@)]);
            assert(self.msgs().take(m0.len() as int) =~= m0);
            Action::CallLlm
        } else {
            self.stage = Stage::RoundStart;
            assert(event_views(events@).skip(e0.len() as int) =~= Seq::<EventView>::empty());
            assert(event_views(events@).take(e0.len() as int) =~= e0);
            assert(self.msgs().skip(m0.len() as int) =~= Seq::<MessageView>::empty());
            assert(self.msgs().take(m0.len() as int) =~= m0);
            Action::Proceed
        }
    }

    /// Enters the scoring phase.
    fn enter_scoring(&mut self, events: &mut Vec<ProgressEvent>) -> (action: Action)
        ensures
            scoring_ok(
                old(self).paper_list@,
                old(self).query@,
                old(self).llm_calls,
                old(self).total_tokens,
                event_views(final(events)@).skip(old(events)@.len() as int),
                action,
                final(self).stage,
            ),
            event_views(final(events)@).take(old(events)@.len() as int) == event_views(old(events)@),
            final(self).messages == old(self).messages,
            final(self).paper_list == old(self).paper_list && final(self).seen_keys == old(self).seen_keys,
            final(self).query == old(self).query,
            final(self).llm_calls == old(self).llm_calls && final(self).search_calls == old(self).search_calls,
            final(self).total_tokens == old(self).total_tokens,
            final(self).max_llm_calls == old(self).max_llm_calls && final(self).max_search_calls == old(self).max_search_calls,
    {
        let ghost e0 = event_views(events@);
        let t = self.total_tokens;
        let n = self.paper_list.len();
        if n == 0 {
            let members = vec![num_member("high", 0), num_member("partial", 0)];
            let detail = render_detail(&members);
            assert(detail_views(members@) =~= seq![("high"@, DetailView::Num(0)), ("partial"@, DetailView::Num(0))]);
            push_event(events, ev("done", "预算耗尽且未找到论文。请尝试放宽约束。", 100, detail.as_str(), t));
            let res = SearchResult {
                conversation_id: String::new(),
                summary: crate::text::owned(EMPTY_SUMMARY),
                tiers: TieredResults { high_relevance: Vec::new(), partial_relevance: Vec::new() },
                total_candidates: 0,
                rounds_used: self.llm_calls,
                needs_clarification: false,
                clarification_options: Vec::new(),
            };
            self.stage = Stage::Finished;
            assert(event_views(events@).take(e0.len() as int) =~= e0);
            assert(event_views(events@).skip(e0.len() as int) =~= seq![event_views(events@)[e0.len() as int]]);
            return Action::Finish(Ok(res));
        }
        let bc: usize = n / 20 + (if n % 20 > 0 {
            1usize
        } else {
            0usize
        });
        assert(bc as nat == batch_count(n as nat));
        let mut msg = crate::text::owned("⭐ AI 逐批评分为 ");
        crate::text::push_dec(&mut msg, n as u64);
        msg.append(" 篇论文打分 (");
        crate::text::push_dec(&mut msg, bc as u64);
        msg.append(" 批，每批 20 篇)…");
        let members = vec![num_member("total", n as u64), num_member("batches", bc as u64)];
        let detail = render_detail(&members);
        assert(detail_views(members@) =~= seq![("total"@, DetailView::Num(n as u64)), ("batches"@, DetailView::Num(bc as u64))]);
        push_event(events, ev("rank", msg.as_str(), 55, detail.as_str(), t));
        let ghost pool = self.paper_list@;
        let ghost e1 = event_views(events@);
        assert(event_views(events@) =~= e1 + Seq::new(0 as nat, |k: int| batch_event(pool, k, bc as nat, t)));
        let mut prompts: Vec<String> = Vec::new();
        let mut b: usize = 0;
        let mut lo: usize = 0;
        while b < bc
            invariant
                b <= bc,
                bc as nat == batch_count(n as nat),
                n == pool.len(),
                pool == self.paper_list@,
                b < bc ==> lo == 20 * b,
                lo <= n,
                e1 == e0.push(rank_event(n as nat, bc as nat, t)),
                event_views(events@) == e1 + Seq::new(b as nat, |k: int| batch_event(pool, k, bc as nat, t)),
                prompts@.len() == b,
                forall|k: int| 0 <= k < b ==> (#[trigger] prompts@[k])@ == batch_prompt_text(paper_views(batch_of(pool, k)), self.query@),
            decreases bc - b,
        {
            let hi: usize = if n - lo > 20 {
                lo + 20
            } else {
                n
            };
            let chunk = vstd::slice::slice_subrange(self.paper_list.as_slice(), lo, hi);
            assert(chunk@ == batch_of(pool, b as int));
            let pr = batch_prompt(chunk, self.query.as_str());
            prompts.push(pr);
            let mut bm = crate::text::owned("启动评分第 ");
            crate::text::push_dec(&mut bm, (b + 1) as u64);
            bm.append("/");
            crate::text::push_dec(&mut bm, bc as u64);
            bm.append(" 批 (");
            crate::text::push_dec(&mut bm, (hi - lo) as u64);
            bm.append(" 篇)…");
            let ghost ev0 = event_views(events@);
            push_event(events, plain("rank_batch", bm.as_str(), 58, t));
            proof {
                assert(bm@ =~= "启动评分第 "@ + dec((b + 1) as nat) + "/"@ + dec(bc as nat) + " 批 ("@ + dec(batch_of(pool, b as int).len()) + " 篇)…"@);
                assert(Seq::new((b + 1) as nat, |k: int| batch_event(pool, k, bc as nat, t)) =~= Seq::new(b as nat, |k: int| batch_event(pool, k, bc as nat, t)).push(batch_event(pool, b as int, bc as nat, t)));
                assert(event_views(events@) =~= e1 + Seq::new((b + 1) as nat, |k: int| batch_event(pool, k, bc as nat, t)));
            }
            b = b + 1;
            lo = hi;
        }
        self.stage = Stage::AwaitScores { batch_count: bc };
        proof {
            assert(event_views(events@).take(e0.len() as int) =~= e0);
            assert(event_views(events@).skip(e0.len() as int) =~= seq![rank_event(n as nat, bc as nat, t)] + Seq::new(bc as nat, |k: int| batch_event(pool, k, bc as nat, t)));
        }
        Action::ScoreBatches(prompts)
    }
}

// ── The tool calls of a reply, one at a time ──

/// The verdict on how many papers a tool call added.
pub open spec fn done_label(added: usize) -> Seq<char> {
    if added >= 10 {
        "📚 收获丰富"@
    } else if added >= 5 {
        "📄 有所发现"@
    } else if added > 0 {
        "📎 少量补充"@
    } else {
        "😕 未找到新结果"@
    }
}

/// The event of a finished tool call that added `added` papers to a pool of `total`.
pub open spec fn tool_done_event(added: usize, total: nat, pct: u8, t: u32) -> EventView {
    EventView {
        phase: "tool_done"@,
        message: done_label(added) + " → 找到 "@ + dec(added as nat) + " 篇新论文 (共 "@ + dec(total) + " 篇)"@,
        percent: (pct + 2) as u8,
        detail: detail_text(seq![("new_papers"@, DetailView::Num(added as u64)), ("total_papers"@, DetailView::Num(total as u64))]),
        tokens: t,
    }
}

/// The answer to a tool call.
pub open spec fn tool_result_view(id: Seq<char>, text: Seq<char>) -> MessageView {
    MessageView { role: "tool"@, content: Some(text), tool_calls: None, tool_call_id: Some(id) }
}

/// The result that asks the user to choose a direction.
pub open spec fn clarify_result_ok(res: SearchResult, a: JsonValue, l: u32) -> bool {
    &&& res.conversation_id@.len() == 0
    &&& res.summary@ == str_or(a.at("message"@), "请选择研究方向:"@)
    &&& res.tiers.high_relevance@.len() == 0 && res.tiers.partial_relevance@.len() == 0
    &&& res.total_candidates == 0
    &&& res.rounds_used == l
    &&& res.needs_clarification
    &&& string_views(res.clarification_options@) == clarify_options(a)
}

/// Whether a call of tool `name` needs a fetch (a search, or a citation tool naming a
/// paper of the pool).
pub open spec fn needs_fetch(name: Seq<char>, arguments: Seq<char>, pool_len: nat) -> bool {
    name == "search_papers"@ || ((name == "get_cited_papers"@ || name == "get_references"@) && (u64_or(
        tool_args(arguments).at("paper_index"@),
        0,
    ) as usize) < pool_len)
}

/// The next tool call is handled: `clarify_query` ends the search with a question to
/// the user (or is answered with an error where its arguments are not JSON);
/// `finish_search` ends the search phase; other calls are planned, answered at once or
/// fetched. After the last call, the budget decides between a forced last model call
/// and a new round.
pub open spec fn tool_call_ok(o: AgentRun, r: AgentRun, step: Step) -> bool {
    let calls = o.stage->Tools_calls;
    let next = o.stage->Tools_next;
    let pct = o.stage->Tools_round_pct;
    let t = o.total_tokens;
    let l = o.llm_calls;
    &&& r.query == o.query && r.llm_calls == l && r.total_tokens == t
    &&& r.max_llm_calls == o.max_llm_calls && r.max_search_calls == o.max_search_calls
    &&& r.seen_keys == o.seen_keys && r.paper_list == o.paper_list
    &&& if next == calls@.len() {
        &&& r.search_calls == o.search_calls
        &&& force_ok(o, r, event_views(step.events@), r.msgs().skip(o.messages@.len() as int), step.action)
        &&& r.msgs().take(o.messages@.len() as int) == o.msgs()
    } else {
        let c = calls@[next as int];
        let name = c.function.name@;
        let args = c.function.arguments@;
        if name == "clarify_query"@ {
            let e1 = EventView {
                phase: "tool_call"@,
                message: "🔍 查询过于宽泛，需要用户选择方向…"@,
                percent: (pct + 5) as u8,
                detail: detail_text(seq![("tool"@, DetailView::Text("clarify_query"@))]),
                tokens: t,
            };
            &&& r.search_calls == o.search_calls
            &&& match json_parsed(args) {
                Some(a) => {
                    &&& event_views(step.events@) == seq![e1, plain_event("done"@, "请选择研究方向 ("@ + dec(clarify_options(a).len()) + " 个选项)"@, 100, t)]
                    &&& step.action matches Action::Finish(Ok(res)) && clarify_result_ok(res, a, l)
                    &&& r.stage is Finished
                    &&& r.msgs() == o.msgs()
                },
                None => {
                    &&& event_views(step.events@) == seq![e1]
                    &&& r.msgs() == o.msgs().push(tool_result_view(c.id@, CLARIFY_PARSE_ERROR@))
                    &&& r.stage == (Stage::Tools { calls, next: (next + 1) as usize, round_pct: pct })
                    &&& step.action is Proceed
                },
            }
        } else if name == "finish_search"@ {
            &&& r.search_calls == o.search_calls
            &&& event_views(step.events@) == seq![EventView {
                phase: "tool_call"@,
                message: "📝 搜索阶段完成，准备评分…"@,
                percent: (pct + 5) as u8,
                detail: detail_text(seq![("tool"@, DetailView::Text("finish_search"@))]),
                tokens: t,
            }]
            &&& r.msgs() == o.msgs()
            &&& step.action is Proceed
            &&& r.stage matches Stage::Finishing { finish } && match json_parsed(args) {
                Some(a) => finish matches Some((m, d)) && m@ == str_or(a.at("message"@), "Search completed."@) && d@ == finish_drops(a),
                None => finish is None,
            }
        } else {
            let desc = tool_call_text(name, args);
            let e1 = EventView {
                phase: "tool_start"@,
                message: "🔍 "@ + desc,
                percent: pct,
                detail: detail_text(seq![("tool"@, DetailView::Text(name)), ("args_desc"@, DetailView::Text(desc))]),
                tokens: t,
            };
            exists|plan: ToolStep|
                tool_step_ok(plan, name, args, o.pool()) && match plan {
                    ToolStep::Answer(text) => {
                        &&& event_views(step.events@) == seq![e1, tool_done_event(papers_in_result(text@), o.paper_list@.len(), pct, t)]
                        &&& r.msgs() == o.msgs().push(tool_result_view(c.id@, text@))
                        &&& r.stage == (Stage::Tools { calls, next: (next + 1) as usize, round_pct: pct })
                        &&& r.search_calls == o.search_calls
                        &&& step.action is Proceed
                    },
                    ToolStep::Fetch(req) => {
                        &&& event_views(step.events@) == seq![e1]
                        &&& r.msgs() == o.msgs()
                        &&& r.search_calls == o.search_calls + 1
                        &&& r.stage == (Stage::AwaitFetch { calls, next, round_pct: pct, request: req })
                        &&& step.action == Action::Fetch(req)
                    },
                }
        }
    }
}

/// The verdict on how many papers a tool call added.
fn done_label_exec(added: usize) -> (res: &'static str)
    ensures
        res@ == done_label(added),
{
    if added >= 10 {
        "📚 收获丰富"
    } else if added >= 5 {
        "📄 有所发现"
    } else if added > 0 {
        "📎 少量补充"
    } else {
        "😕 未找到新结果"
    }
}

/// The event of a finished tool call.
#[verifier::rlimit(30)]
fn tool_done(result: &str, total: usize, pct: u8, t: u32) -> (res: ProgressEvent)
    requires
        pct <= 45,
    ensures
        res@ == tool_done_event(papers_in_result(result@), total as nat, pct, t),
{
    let added = crate::progress::count_papers_in_result(result);
    let label = done_label_exec(added);
    let mut msg = crate::text::owned(label);
    msg.append(" → 找到 ");
    crate::text::push_dec(&mut msg, added as u64);
    msg.append(" 篇新论文 (共 ");
    crate::text::push_dec(&mut msg, total as u64);
    msg.append(" 篇)");
    let members = vec![num_member("new_papers", added as u64), num_member("total_papers", total as u64)];
    let detail = render_detail(&members);
    assert(detail_views(members@) =~= seq![("new_papers"@, DetailView::Num(added as u64)), ("total_papers"@, DetailView::Num(total as u64))]);
    let e = ev("tool_done", msg.as_str(), pct + 2, detail.as_str(), t);
    assert(msg@ =~= done_label(added) + " → 找到 "@ + dec(added as nat) + " 篇新论文 (共 "@ + dec(total as nat) + " 篇)"@);
    e
}

/// Appends the answer to a tool call.
fn push_tool_result(messages: &mut Vec<LlmMessage>, id: &String, text: String)
    ensures
        message_views(final(messages)@) == message_views(old(messages)@).push(tool_result_view(id@, text@)),
{
    let m = LlmMessage::tool_result(id.clone(), text);
    let ghost m0 = message_views(messages@);
    messages.push(m);
    assert(message_views(messages@) =~= m0.push(tool_result_view(id@, m.content->0@)));
}

impl AgentRun {
    /// Handles the next tool call (stage `Tools`).
    #[verifier::rlimit(60)]
    fn tool_step(&mut self) -> (step: Step)
        requires
            old(self).wf(),
            old(self).stage is Tools,
            old(self).stage->Tools_next < old(self).stage->Tools_calls@.len() ==> {
                let c = old(self).stage->Tools_calls@[old(self).stage->Tools_next as int];
                needs_fetch(c.function.name@, c.function.arguments@, old(self).paper_list@.len()) ==> old(self).search_calls < u32::MAX
            },
        ensures
            final(self).wf(),
            tool_call_ok(*old(self), *final(self), step),
    {
        let ghost o = *self;
        let mut st = Stage::Finished;
        std::mem::swap(&mut st, &mut self.stage);
        let (calls, next, pct) = match st {
            Stage::Tools { calls, next, round_pct } => (calls, next, round_pct),
            _ => {
                assert(false);
                (Vec::new(), 0, 0)
            },
        };
        let t = self.total_tokens;
        let mut events: Vec<ProgressEvent> = Vec::new();
        assert(event_views(events@) =~= Seq::<EventView>::empty());
        if next == calls.len() {
            let ghost m0 = self.messages@.len();
            let action = self.force_or_next_round(&mut events);
            assert(event_views(events@).skip(0) =~= event_views(events@));
            assert(m0 == o.messages@.len());
            return Step { events, action };
        }
        let name = calls[next].function.name.clone();
        let args = calls[next].function.arguments.clone();
        let id = calls[next].id.clone();
        if crate::text::str_eq(name.as_str(), "clarify_query") {
            let members = vec![text_member("tool", "clarify_query")];
            let detail = render_detail(&members);
            assert(detail_views(members@) =~= seq![("tool"@, DetailView::Text("clarify_query"@))]);
            push_event(&mut events, ev("tool_call", "🔍 查询过于宽泛，需要用户选择方向…", pct + 5, detail.as_str(), t));
            match crate::tools::parse_clarify(args.as_str()) {
                Ok((msg, options)) => {
                    let mut m = crate::text::owned("请选择研究方向 (");
                    crate::text::push_dec(&mut m, options.len() as u64);
                    m.append(" 个选项)");
                    push_event(&mut events, plain("done", m.as_str(), 100, t));
                    let res = SearchResult {
                        conversation_id: String::new(),
                        summary: msg,
                        tiers: TieredResults { high_relevance: Vec::new(), partial_relevance: Vec::new() },
                        total_candidates: 0,
                        rounds_used: self.llm_calls,
                        needs_clarification: true,
                        clarification_options: options,
                    };
                    self.stage = Stage::Finished;
                    proof {
                        let a = json_parsed(args@)->0;
                        assert(string_views(options@).len() == options@.len());
                        assert(event_views(events@) =~= seq![event_views(events@)[0], event_views(events@)[1]]);
                        assert(clarify_result_ok(res, a, o.llm_calls));
                    }
                    return Step { events, action: Action::Finish(Ok(res)) };
                },
                Err(_) => {
                    push_tool_result(&mut self.messages, &id, crate::text::owned(CLARIFY_PARSE_ERROR));
                    self.stage = Stage::Tools { calls, next: next + 1, round_pct: pct };
                    return Step { events, action: Action::Proceed };
                },
            }
        }
        if crate::text::str_eq(name.as_str(), "finish_search") {
            let members = vec![text_member("tool", "finish_search")];
            let detail = render_detail(&members);
            assert(detail_views(members@) =~= seq![("tool"@, DetailView::Text("finish_search"@))]);
            push_event(&mut events, ev("tool_call", "📝 搜索阶段完成，准备评分…", pct + 5, detail.as_str(), t));
            let finish = match crate::tools::parse_finish_message(args.as_str()) {
                Ok(f) => Some(f),
                Err(_) => None,
            };
            self.stage = Stage::Finishing { finish };
            return Step { events, action: Action::Proceed };
        }
        let desc = crate::progress::fmt_tool_args(name.as_str(), args.as_str());
        let members = vec![text_member("tool", name.as_str()), text_member("args_desc", desc.as_str())];
        let detail = render_detail(&members);
        assert(detail_views(members@) =~= seq![("tool"@, DetailView::Text(name@)), ("args_desc"@, DetailView::Text(desc@))]);
        let mut smsg = crate::text::owned("🔍 ");
        smsg.append(desc.as_str());
        push_event(&mut events, ev("tool_start", smsg.as_str(), pct, detail.as_str(), t));
        let ghost e1 = event_views(events@)[0];
        let plan = crate::tools::plan_tool(name.as_str(), args.as_str(), &self.paper_list);
        let ghost gplan = plan;
        match plan {
            ToolStep::Answer(text) => {
                let ghost tv = text@;
                let e = tool_done(text.as_str(), self.paper_list.len(), pct, t);
                push_event(&mut events, e);
                push_tool_result(&mut self.messages, &id, text);
                self.stage = Stage::Tools { calls, next: next + 1, round_pct: pct };
                let step = Step { events, action: Action::Proceed };
                proof {
                    assert(tool_step_ok(gplan, name@, args@, o.pool()));
                    assert(event_views(step.events@) =~= seq![e1, tool_done_event(papers_in_result(tv), o.paper_list@.len(), pct, t)]);
                    assert(self.msgs() == o.msgs().push(tool_result_view(id@, tv)));
                }
                step
            },
            ToolStep::Fetch(req) => {
                proof {
                    assert(needs_fetch(name@, args@, self.paper_list@.len()));
                }
                self.search_calls = self.search_calls + 1;
                let copy = req.clone();
                self.stage = Stage::AwaitFetch { calls, next, round_pct: pct, request: req };
                let step = Step { events, action: Action::Fetch(copy) };
                proof {
                    assert(tool_step_ok(gplan, name@, args@, o.pool()));
                    assert(event_views(step.events@) =~= seq![e1]);
                }
                step
            },
        }
    }
}

// ── The papers of a fetch ──

/// The papers of a fetch came back (or the fetch failed): new papers join the pool and
/// the answer lists them; a failure is shown and answered with its message. The next
/// tool call is handled after.
pub open spec fn fetch_ok(o: AgentRun, r: AgentRun, outcome: Result<Vec<Paper>, String>, step: Step) -> bool {
    let calls = o.stage->AwaitFetch_calls;
    let next = o.stage->AwaitFetch_next;
    let pct = o.stage->AwaitFetch_round_pct;
    let req = o.stage->AwaitFetch_request;
    let t = o.total_tokens;
    let id = calls@[next as int].id@;
    &&& r.query == o.query && r.llm_calls == o.llm_calls && r.search_calls == o.search_calls && r.total_tokens == t
    &&& r.max_llm_calls == o.max_llm_calls && r.max_search_calls == o.max_search_calls
    &&& r.stage == (Stage::Tools { calls, next: (next + 1) as usize, round_pct: pct })
    &&& step.action is Proceed
    &&& match outcome {
        Ok(papers) => {
            let (pool, seen) = absorb(o.pool(), o.seen(), paper_views(papers@));
            let text = search_results_text(request_label(req), pool.skip(o.paper_list@.len() as int), o.paper_list@.len());
            &&& r.pool() == pool && r.seen() == seen
            &&& r.msgs() == o.msgs().push(tool_result_view(id, text))
            &&& event_views(step.events@) == seq![tool_done_event(papers_in_result(text), pool.len(), pct, t)]
        },
        Err(e) => {
            &&& r.paper_list == o.paper_list && r.seen_keys == o.seen_keys
            &&& r.msgs() == o.msgs().push(tool_result_view(id, "Error: "@ + e@ + ". Please try a different approach."@))
            &&& event_views(step.events@) == seq![plain_event("tool_error"@, "工具调用失败: "@ + e@, pct, t)]
        },
    }
}

impl AgentRun {
    /// Takes the papers that a fetch returned, or its error (stage `AwaitFetch`).
    pub fn on_fetch(&mut self, outcome: Result<Vec<Paper>, String>) -> (step: Step)
        requires
            old(self).wf(),
            old(self).stage is AwaitFetch,
            outcome matches Ok(papers) ==> old(self).paper_list@.len() + papers@.len() <= usize::MAX,
        ensures
            final(self).wf(),
            fetch_ok(*old(self), *final(self), outcome, step),
    {
        let ghost o = *self;
        let mut st = Stage::Finished;
        std::mem::swap(&mut st, &mut self.stage);
        let (calls, next, pct, req) = match st {
            Stage::AwaitFetch { calls, next, round_pct, request } => (calls, next, round_pct, request),
            _ => {
                assert(false);
                (Vec::new(), 0, 0, ToolRequest::Search { query: String::new(), max_results: 0 })
            },
        };
        let t = self.total_tokens;
        let ncalls: usize = calls.len();
        assert(next < ncalls);
        let id = calls[next].id.clone();
        let mut events: Vec<ProgressEvent> = Vec::new();
        match outcome {
            Ok(papers) => {
                let ghost pv = paper_views(papers@);
                proof {
                    lemma_absorb_pool_ok(o.pool(), o.seen(), pv);
                    crate::tools::lemma_absorb_len(o.pool(), o.seen(), pv);
                }
                let text = crate::tools::complete_tool(&req, papers, &mut self.paper_list, &mut self.seen_keys);
                let e = tool_done(text.as_str(), self.paper_list.len(), pct, t);
                push_event(&mut events, e);
                push_tool_result(&mut self.messages, &id, text);
            },
            Err(e) => {
                let mut msg = crate::text::owned("工具调用失败: ");
                msg.append(e.as_str());
                push_event(&mut events, plain("tool_error", msg.as_str(), pct, t));
                let mut answer = crate::text::owned("Error: ");
                answer.append(e.as_str());
                answer.append(". Please try a different approach.");
                push_tool_result(&mut self.messages, &id, answer);
            },
        }
        assert(event_views(events@) =~= seq![event_views(events@)[0]]);
        self.stage = Stage::Tools { calls, next: next + 1, round_pct: pct };
        Step { events, action: Action::Proceed }
    }
}

// ── The end of the search phase ──

/// The events of a `finish_search`: how many papers were dropped, where any were.
pub open spec fn drop_events(dropped: nat, kept: nat, t: u32) -> Seq<EventView> {
    if dropped > 0 {
        seq![plain_event("agent_thought"@, "丢弃了 "@ + dec(dropped) + " 篇不相关论文，保留 "@ + dec(kept) + " 篇"@, 48, t)]
    } else {
        seq![]
    }
}

/// The agent called `finish_search`: the papers it listed are dropped. Where that
/// empties the pool while both budgets remain, the agent is asked to search again;
/// else its message is shown (where not empty) and the scoring phase starts.
pub open spec fn finish_ok(o: AgentRun, r: AgentRun, step: Step) -> bool {
    let finish = o.stage->Finishing_finish;
    let t = o.total_tokens;
    let l = o.llm_calls;
    &&& r.query == o.query && r.llm_calls == l && r.search_calls == o.search_calls && r.total_tokens == t
    &&& r.max_llm_calls == o.max_llm_calls && r.max_search_calls == o.max_search_calls
    &&& r.seen_keys == o.seen_keys
    &&& match finish {
        None => {
            &&& r.paper_list == o.paper_list
            &&& r.msgs() == o.msgs()
            &&& scoring_ok(o.paper_list@, o.query@, l, t, event_views(step.events@), step.action, r.stage)
        },
        Some((m, d)) => {
            let kept = keep_after_drops(o.paper_list@, d@);
            let de = drop_events((o.paper_list@.len() - kept.len()) as nat, kept.len(), t);
            &&& r.paper_list@ == kept
            &&& if d@.len() > 0 && kept.len() == 0 && l < o.max_llm_calls && o.search_calls < o.max_search_calls {
                &&& event_views(step.events@) == de.push(plain_event("agent_thought"@, "论文池已空，要求 Agent 重新搜索…"@, 49, t))
                &&& r.msgs() == o.msgs().push(text_msg("user"@, POOL_EMPTY_MSG@))
                &&& r.stage is RoundStart
                &&& step.action is Proceed
            } else {
                let me = if m@.len() > 0 {
                    seq![plain_event("agent_thought"@, m@, 48, t)]
                } else {
                    seq![]
                };
                let k = (de.len() + me.len()) as int;
                &&& event_views(step.events@).take(k) == de + me
                &&& r.msgs() == o.msgs()
                &&& scoring_ok(kept, o.query@, l, t, event_views(step.events@).skip(k), step.action, r.stage)
            }
        },
    }
}

impl AgentRun {
    /// The end of the search phase (stage `Finishing`).
    fn finish_step(&mut self) -> (step: Step)
        requires
            old(self).wf(),
            old(self).stage is Finishing,
        ensures
            final(self).wf(),
            finish_ok(*old(self), *final(self), step),
    {
        let ghost o = *self;
        let mut st = Stage::Finished;
        std::mem::swap(&mut st, &mut self.stage);
        let finish = match st {
            Stage::Finishing { finish } => finish,
            _ => {
                assert(false);
                None
            },
        };
        let t = self.total_tokens;
        let mut events: Vec<ProgressEvent> = Vec::new();
        assert(event_views(events@) =~= Seq::<EventView>::empty());
        match finish {
            None => {
                let action = self.enter_scoring(&mut events);
                assert(event_views(events@).skip(0) =~= event_views(events@));
                Step { events, action }
            },
            Some((m, d)) => {
                let ghost pool0 = self.paper_list@;
                proof {
                    lemma_drops_pool_ok(paper_views(pool0), string_views(self.seen_keys@), d@);
                    lemma_keep_views(pool0, d@);
                    lemma_keep_from_pool(pool0, d@);
                }
                let dropped = drop_papers(&mut self.paper_list, &d);
                let kept = self.paper_list.len();
                if dropped > 0 {
                    let mut msg = crate::text::owned("丢弃了 ");
                    crate::text::push_dec(&mut msg, dropped as u64);
                    msg.append(" 篇不相关论文，保留 ");
                    crate::text::push_dec(&mut msg, kept as u64);
                    msg.append(" 篇");
                    push_event(&mut events, plain("agent_thought", msg.as_str(), 48, t));
                }
                let ghost de = event_views(events@);
                assert(de =~= drop_events(dropped as nat, kept as nat, t));
                if d.len() > 0 && kept == 0 && self.llm_calls < self.max_llm_calls && self.search_calls < self.max_search_calls {
                    push_event(&mut events, plain("agent_thought", "论文池已空，要求 Agent 重新搜索…", 49, t));
                    push_user(&mut self.messages, POOL_EMPTY_MSG);
                    self.stage = Stage::RoundStart;
                    return Step { events, action: Action::Proceed };
                }
                if !m.as_str().is_empty() {
                    push_event(&mut events, plain("agent_thought", m.as_str(), 48, t));
                }
                let ghost dm = event_views(events@);
                assert(dm =~= de + (if m@.len() > 0 {
                    seq![plain_event("agent_thought"@, m@, 48, t)]
                } else {
                    seq![]
                }));
                let ghost k = dm.len() as int;
                proof {
                    reveal_strlit("");
                }
                let action = self.enter_scoring(&mut events);
                assert(event_views(events@).take(k) == dm);
                Step { events, action }
            },
        }
    }
}

// ── The forced last reply ──

/// The forced last model call returned: it is counted with its tokens, and the
/// scoring phase starts over the pool as it stands.
pub open spec fn forced_ok(o: AgentRun, r: AgentRun, resp: ChatResponse, step: Step) -> bool {
    let l = (o.llm_calls + 1) as u32;
    let t = (o.total_tokens + resp.tokens) as u32;
    &&& r.query == o.query && r.llm_calls == l && r.search_calls == o.search_calls && r.total_tokens == t
    &&& r.max_llm_calls == o.max_llm_calls && r.max_search_calls == o.max_search_calls
    &&& r.paper_list == o.paper_list && r.seen_keys == o.seen_keys && r.messages == o.messages
    &&& scoring_ok(o.paper_list@, o.query@, l, t, event_views(step.events@), step.action, r.stage)
}

impl AgentRun {
    /// Takes the reply of the forced last model call (stage `AwaitForced`).
    pub fn on_forced_reply(&mut self, resp: ChatResponse) -> (step: Step)
        requires
            old(self).wf(),
            old(self).stage is AwaitForced,
            old(self).llm_calls < u32::MAX,
            old(self).total_tokens + resp.tokens <= u32::MAX,
        ensures
            final(self).wf(),
            forced_ok(*old(self), *final(self), resp, step),
    {
        self.llm_calls = self.llm_calls + 1;
        self.total_tokens = self.total_tokens + resp.tokens;
        let mut events: Vec<ProgressEvent> = Vec::new();
        let action = self.enter_scoring(&mut events);
        assert(event_views(events@).skip(0) =~= event_views(events@));
        Step { events, action }
    }
}

// ── The scores of the batches ──

/// Whether the scoring of a batch failed: the model call failed, or its reply is not
/// JSON.
pub open spec fn batch_fails(reply: Result<ChatResponse, String>) -> bool {
    match reply {
        Err(_) => true,
        Ok(resp) => json_parsed(reply_text(resp)) is None,
    }
}

/// The first batch, in batch order, whose scoring failed.
pub open spec fn first_failure(replies: Seq<Result<ChatResponse, String>>) -> Option<int>
    decreases replies.len(),
{
    if replies.len() == 0 {
        None
    } else {
        match first_failure(replies.drop_last()) {
            Some(i) => Some(i),
            None => if batch_fails(replies.last()) {
                Some(replies.len() - 1)
            } else {
                None
            },
        }
    }
}

/// The scores that a batch reply gives the papers of its batch.
pub open spec fn batch_scores(reply: Result<ChatResponse, String>, batch: Seq<PaperView>) -> Seq<ScoredPaperView> {
    match reply {
        Ok(resp) => match json_parsed(reply_text(resp)) {
            Some(j) => match j.at("scores"@).array_of() {
                Some(a) => scored_entries(a, batch, true),
                None => seq![],
            },
            None => seq![],
        },
        Err(_) => seq![],
    }
}

/// The scores of all batches of the pool, in batch order.
pub open spec fn all_batch_scores(replies: Seq<Result<ChatResponse, String>>, pool: Seq<PaperView>) -> Seq<ScoredPaperView>
    decreases replies.len(),
{
    if replies.len() == 0 {
        seq![]
    } else {
        all_batch_scores(replies.drop_last(), pool) + batch_scores(replies.last(), batch_of(pool, replies.len() - 1))
    }
}

/// The tokens that the batch replies used.
pub open spec fn scores_tokens(replies: Seq<Result<ChatResponse, String>>) -> nat
    decreases replies.len(),
{
    if replies.len() == 0 {
        0
    } else {
        scores_tokens(replies.drop_last()) + match replies.last() {
            Ok(resp) => resp.tokens as nat,
            Err(_) => 0,
        }
    }
}

/// The tiers hold the scored papers `scored` split and sorted as `Ranker::partition`
/// does it.
pub open spec fn tiers_of(scored: Seq<ScoredPaperView>, tiers: TieredResults) -> bool {
    exists|all: Seq<ScoredPaper>|
        #[trigger] scored_views(all) == scored && stable_sorted(
            all.filter(|s: ScoredPaper| is_high(s)),
            tiers.high_relevance@,
            true,
        ) && stable_sorted(all.filter(|s: ScoredPaper| is_partial(s)), tiers.partial_relevance@, true)
}

/// The event that closes the scoring.
pub open spec fn rank_done_event(h: nat, p: nat, t: u32) -> EventView {
    EventView {
        phase: "rank_done"@,
        message: "评分完成 — 高度相关 "@ + dec(h) + " 篇 · 部分相关 "@ + dec(p) + " 篇"@,
        percent: 88,
        detail: detail_text(seq![("high"@, DetailView::Num(h as u64)), ("partial"@, DetailView::Num(p as u64))]),
        tokens: t,
    }
}

/// The scores of the batches came back: the first failure, in batch order, ends the
/// search with an error; else the scores are split into tiers and a summary is asked
/// for.
pub open spec fn scores_ok(o: AgentRun, r: AgentRun, replies: Seq<Result<ChatResponse, String>>, step: Step) -> bool {
    let t = o.total_tokens;
    &&& r.query == o.query && r.llm_calls == o.llm_calls && r.search_calls == o.search_calls
    &&& r.max_llm_calls == o.max_llm_calls && r.max_search_calls == o.max_search_calls
    &&& r.paper_list == o.paper_list && r.seen_keys == o.seen_keys && r.messages == o.messages
    &&& match first_failure(replies) {
        Some(i) => {
            &&& r.total_tokens == t
            &&& r.stage is Finished
            &&& step.events@.len() == 0
            &&& step.action matches Action::Finish(Err(e)) && match replies[i] {
                Err(m) => e@ == "Batch scoring failed: "@ + m@,
                Ok(_) => exists|m: Seq<char>| e@ == "Batch scoring failed: "@ + m,
            }
        },
        None => {
            let t2 = (t + scores_tokens(replies)) as u32;
            &&& r.total_tokens == t2
            &&& r.stage matches Stage::AwaitSummary { tiers } && {
                let h = tiers.high_relevance@.len();
                let p = tiers.partial_relevance@.len();
                &&& tiers_of(all_batch_scores(replies, paper_views(o.paper_list@)), tiers)
                &&& event_views(step.events@) == seq![
                    rank_done_event(h, p, t2),
                    plain_event("organize"@, "📝 AI 生成搜索摘要…"@, 92, t2),
                ]
                &&& step.action matches Action::Summarize(prompt) && prompt@ == summary_prompt_text(tiers, o.query@)
            }
        },
    }
}

/// The tokens of a prefix of the replies are at most those of all of them.
proof fn lemma_tokens_prefix(replies: Seq<Result<ChatResponse, String>>, i: int)
    requires
        0 <= i <= replies.len(),
    ensures
        scores_tokens(replies.take(i)) <= scores_tokens(replies),
    decreases replies.len(),
{
    if i < replies.len() {
        assert(replies.drop_last().take(i) =~= replies.take(i));
        lemma_tokens_prefix(replies.drop_last(), i);
    } else {
        assert(replies.take(i) =~= replies);
    }
}

/// A failure in a prefix is the first failure of the whole.
proof fn lemma_failure_prefix(replies: Seq<Result<ChatResponse, String>>, i: int)
    requires
        0 <= i <= replies.len(),
        first_failure(replies.take(i)) is Some,
    ensures
        first_failure(replies) == first_failure(replies.take(i)),
    decreases replies.len(),
{
    if i < replies.len() {
        assert(replies.drop_last().take(i) =~= replies.take(i));
        lemma_failure_prefix(replies.drop_last(), i);
    } else {
        assert(replies.take(i) =~= replies);
    }
}

/// The error that ends a search whose scoring failed.
fn scoring_error(m: &str) -> (res: String)
    ensures
        res@ == "Batch scoring failed: "@ + m@,
{
    let mut e = crate::text::owned("Batch scoring failed: ");
    e.append(m);
    e
}

impl AgentRun {
    /// Takes the replies of the batch scoring calls, in batch order (stage
    /// `AwaitScores`).
    pub fn on_scores(&mut self, replies: Vec<Result<ChatResponse, String>>) -> (step: Step)
        requires
            old(self).wf(),
            old(self).stage is AwaitScores,
            replies@.len() == old(self).stage->AwaitScores_batch_count,
            replies@.len() == batch_count(old(self).paper_list@.len()),
            first_failure(replies@) is None ==> old(self).total_tokens + scores_tokens(replies@) <= u32::MAX,
        ensures
            final(self).wf(),
            scores_ok(*old(self), *final(self), replies@, step),
    {
        let ghost o = *self;
        let ghost pool = self.paper_list@;
        let ghost pv = paper_views(pool);
        let n = self.paper_list.len();
        let bc = replies.len();
        let mut all: Vec<ScoredPaper> = Vec::new();
        let mut b: usize = 0;
        let mut lo: usize = 0;
        assert(replies@.take(0) =~= Seq::<Result<ChatResponse, String>>::empty());
        while b < bc
            invariant
                b <= bc,
                bc == replies@.len(),
                bc as nat == batch_count(n as nat),
                n == pool.len(),
                pool == self.paper_list@,
                pv == paper_views(pool),
                *self == o,
                o == *old(self),
                o.wf(),
                b < bc ==> lo == 20 * b,
                lo <= n,
                first_failure(replies@.take(b as int)) is None,
                scored_views(all@) == all_batch_scores(replies@.take(b as int), pv),
            decreases bc - b,
        {
            let hi: usize = if n - lo > 20 {
                lo + 20
            } else {
                n
            };
            let chunk = vstd::slice::slice_subrange(self.paper_list.as_slice(), lo, hi);
            assert(chunk@ == batch_of(pool, b as int));
            assert(paper_views(chunk@) =~= batch_of(pv, b as int));
            assert(replies@.take(b + 1).drop_last() =~= replies@.take(b as int));
            assert(replies@.take(b + 1).last() == replies@[b as int]);
            match &replies[b] {
                Err(m) => {
                    proof {
                        lemma_failure_prefix(replies@, b + 1);
                    }
                    self.stage = Stage::Finished;
                    let events: Vec<ProgressEvent> = Vec::new();
                    return Step { events, action: Action::Finish(Err(scoring_error(m.as_str()))) };
                },
                Ok(resp) => {
                    let content = match &resp.content {
                        Some(c) => c.clone(),
                        None => String::new(),
                    };
                    proof {
                        reveal_strlit("");
                        assert(content@ == reply_text(*resp));
                    }
                    match parse_batch_scores(content.as_str(), chunk) {
                        Err(pe) => {
                            proof {
                                lemma_failure_prefix(replies@, b + 1);
                            }
                            self.stage = Stage::Finished;
                            let events: Vec<ProgressEvent> = Vec::new();
                            let e = scoring_error(pe.message.as_str());
                            assert(e@ == "Batch scoring failed: "@ + pe.message@);
                            return Step { events, action: Action::Finish(Err(e)) };
                        },
                        Ok(v) => {
                            let ghost a0 = scored_views(all@);
                            let mut v = v;
                            all.append(&mut v);
                            assert(scored_views(all@) =~= a0 + batch_scores(replies@[b as int], batch_of(pv, b as int)));
                        },
                    }
                },
            }
            b = b + 1;
            lo = hi;
        }
        assert(replies@.take(bc as int) =~= replies@);
        let t = self.total_tokens;
        let mut t2 = t;
        let mut i: usize = 0;
        while i < bc
            invariant
                i <= bc,
                bc == replies@.len(),
                first_failure(replies@) is None,
                t + scores_tokens(replies@) <= u32::MAX,
                t2 == t + scores_tokens(replies@.take(i as int)),
            decreases bc - i,
        {
            assert(replies@.take(i + 1).drop_last() =~= replies@.take(i as int));
            proof {
                lemma_tokens_prefix(replies@, i + 1);
            }
            match &replies[i] {
                Ok(resp) => {
                    t2 = t2 + resp.tokens;
                },
                Err(_) => {},
            }
            i = i + 1;
        }
        assert(replies@.take(bc as int) =~= replies@);
        let ghost scored = all@;
        let n_scored: usize = all.len();
        assert(scored.len() == n_scored);
        let tiers = crate::ranker::Ranker::partition(all);
        let h = tiers.high_relevance.len();
        let p = tiers.partial_relevance.len();
        let mut msg = crate::text::owned("评分完成 — 高度相关 ");
        crate::text::push_dec(&mut msg, h as u64);
        msg.append(" 篇 · 部分相关 ");
        crate::text::push_dec(&mut msg, p as u64);
        msg.append(" 篇");
        let members = vec![num_member("high", h as u64), num_member("partial", p as u64)];
        let detail = render_detail(&members);
        assert(detail_views(members@) =~= seq![("high"@, DetailView::Num(h as u64)), ("partial"@, DetailView::Num(p as u64))]);
        let mut events: Vec<ProgressEvent> = Vec::new();
        push_event(&mut events, ev("rank_done", msg.as_str(), 88, detail.as_str(), t2));
        push_event(&mut events, plain("organize", "📝 AI 生成搜索摘要…", 92, t2));
        assert(event_views(events@) =~= seq![event_views(events@)[0], event_views(events@)[1]]);
        let prompt = ResultOrganizer::summary_prompt(&tiers, self.query.as_str());
        proof {
            assert(tiers_of(all_batch_scores(replies@, pv), tiers)) by {
                assert(scored_views(scored) == all_batch_scores(replies@, pv));
            }
        }
        self.total_tokens = t2;
        self.stage = Stage::AwaitSummary { tiers };
        Step { events, action: Action::Summarize(prompt) }
    }
}

// ── The summary ──

/// The event that closes a search.
pub open spec fn done_event(h: nat, p: nat, l: u32, s: u32, t: u32) -> EventView {
    EventView {
        phase: "done"@,
        message: "✅ 完成 — "@ + dec(h + p) + " 篇相关论文 · "@ + dec(l as nat) + " 轮搜索 · "@ + dec(t as nat) + " Token"@,
        percent: 100,
        detail: detail_text(seq![
            ("high"@, DetailView::Num(h as u64)),
            ("partial"@, DetailView::Num(p as u64)),
            ("llm_calls"@, DetailView::Num(l as u64)),
            ("search_calls"@, DetailView::Num(s as u64)),
            ("tokens"@, DetailView::Num(t as u64)),
        ]),
        tokens: t,
    }
}

/// The summary came back (or its call failed): the search ends with the tiers and the
/// summary, or with the error.
pub open spec fn summary_ok(o: AgentRun, r: AgentRun, reply: Result<(String, u32), String>, step: Step) -> bool {
    let tiers = o.stage->AwaitSummary_tiers;
    let l = o.llm_calls;
    &&& r.query == o.query && r.llm_calls == l && r.search_calls == o.search_calls
    &&& r.max_llm_calls == o.max_llm_calls && r.max_search_calls == o.max_search_calls
    &&& r.paper_list == o.paper_list && r.seen_keys == o.seen_keys && r.messages == o.messages
    &&& r.stage is Finished
    &&& match reply {
        Err(e) => {
            &&& r.total_tokens == o.total_tokens
            &&& step.events@.len() == 0
            &&& step.action matches Action::Finish(Err(x)) && x@ == e@
        },
        Ok((summary, tokens)) => {
            let t = (o.total_tokens + tokens) as u32;
            let h = tiers.high_relevance@.len();
            let p = tiers.partial_relevance@.len();
            &&& r.total_tokens == t
            &&& event_views(step.events@) == seq![done_event(h, p, l, o.search_calls, t)]
            &&& step.action matches Action::Finish(Ok(res)) && {
                &&& res.summary == summary
                &&& res.tiers == tiers
                &&& res.total_candidates == h + p
                &&& res.rounds_used == l
                &&& res.conversation_id@.len() == 0
                &&& !res.needs_clarification
                &&& res.clarification_options@.len() == 0
            }
        },
    }
}

impl AgentRun {
    /// Takes the summary and the tokens it used, or the error of its call (stage
    /// `AwaitSummary`).
    pub fn on_summary(&mut self, reply: Result<(String, u32), String>) -> (step: Step)
        requires
            old(self).wf(),
            old(self).stage is AwaitSummary,
            reply matches Ok((_, tokens)) ==> old(self).total_tokens + tokens <= u32::MAX,
        ensures
            final(self).wf(),
            summary_ok(*old(self), *final(self), reply, step),
    {
        let mut st = Stage::Finished;
        std::mem::swap(&mut st, &mut self.stage);
        let tiers = match st {
            Stage::AwaitSummary { tiers } => tiers,
            _ => {
                assert(false);
                TieredResults { high_relevance: Vec::new(), partial_relevance: Vec::new() }
            },
        };
        match reply {
            Err(e) => {
                let events: Vec<ProgressEvent> = Vec::new();
                Step { events, action: Action::Finish(Err(e)) }
            },
            Ok((summary, tokens)) => {
                self.total_tokens = self.total_tokens + tokens;
                let t = self.total_tokens;
                let h = tiers.high_relevance.len();
                let p = tiers.partial_relevance.len();
                let total = h + p;
                let mut msg = crate::text::owned("✅ 完成 — ");
                crate::text::push_dec(&mut msg, total as u64);
                msg.append(" 篇相关论文 · ");
                crate::text::push_dec(&mut msg, self.llm_calls as u64);
                msg.append(" 轮搜索 · ");
                crate::text::push_dec(&mut msg, t as u64);
                msg.append(" Token");
                let members = vec![
                    num_member("high", h as u64),
                    num_member("partial", p as u64),
                    num_member("llm_calls", self.llm_calls as u64),
                    num_member("search_calls", self.search_calls as u64),
                    num_member("tokens", t as u64),
                ];
                let detail = render_detail(&members);
                assert(detail_views(members@) =~= seq![
                    ("high"@, DetailView::Num(h as u64)),
                    ("partial"@, DetailView::Num(p as u64)),
                    ("llm_calls"@, DetailView::Num(self.llm_calls as u64)),
                    ("search_calls"@, DetailView::Num(self.search_calls as u64)),
                    ("tokens"@, DetailView::Num(t as u64)),
                ]);
                let mut events: Vec<ProgressEvent> = Vec::new();
                push_event(&mut events, ev("done", msg.as_str(), 100, detail.as_str(), t));
                assert(event_views(events@) =~= seq![event_views(events@)[0]]);
                let res = ResultOrganizer::assemble_result(summary, tiers, total, self.llm_calls);
                Step { events, action: Action::Finish(Ok(res)) }
            },
        }
    }
}

// ── Steps taken at once ──

/// Whether the next step may be taken at once (after `Action::Proceed`): a round
/// starts, a tool call is handled, or the search phase ends.
pub open spec fn proceeds(stage: Stage) -> bool {
    stage is RoundStart || stage is Tools || stage is Finishing
}

/// What `proceed` does, by stage.
pub open spec fn proceed_ok(o: AgentRun, r: AgentRun, cancelled: bool, step: Step) -> bool {
    match o.stage {
        Stage::RoundStart => round_start_ok(o, r, cancelled, step),
        Stage::Tools { .. } => tool_call_ok(o, r, step),
        _ => finish_ok(o, r, step),
    }
}

impl AgentRun {
    /// Takes the next step where it needs nothing from outside: the start of a round
    /// (which ends the search where the user cancelled), the next tool call of a reply,
    /// or the end of the search phase.
    pub fn proceed(&mut self, cancelled: bool) -> (step: Step)
        requires
            old(self).wf(),
            proceeds(old(self).stage),
            old(self).stage is RoundStart && !cancelled ==> old(self).llm_calls < u32::MAX,
            old(self).stage is RoundStart && !cancelled ==> old(self).max_llm_calls > 0,
            old(self).stage is Tools && old(self).stage->Tools_next < old(self).stage->Tools_calls@.len() ==> {
                let c = old(self).stage->Tools_calls@[old(self).stage->Tools_next as int];
                needs_fetch(c.function.name@, c.function.arguments@, old(self).paper_list@.len()) ==> old(self).search_calls < u32::MAX
            },
        ensures
            final(self).wf(),
            proceed_ok(*old(self), *final(self), cancelled, step),
    {
        match self.stage {
            Stage::RoundStart => self.begin_round(cancelled),
            Stage::Tools { .. } => self.tool_step(),
            _ => self.finish_step(),
        }
    }
}

/// The scores of batch `b` go to papers of batch `b`: an entry of its reply whose index
/// `i` (0 by default) is below 20 and names a paper of the pool scores the paper at
/// position `20 * b + i` of the pool, with the entry's score and rationale.
pub proof fn lemma_batch_scores_placed(
    replies: Seq<Result<ChatResponse, String>>,
    pool: Seq<PaperView>,
    b: int,
    entries: Seq<JsonValue>,
    m: int,
)
    requires
        0 <= b < replies.len(),
        replies[b] matches Ok(resp) && json_parsed(reply_text(resp)) matches Some(j) && j.at("scores"@).array_of()
            == Some(entries),
        0 <= m < entries.len(),
        (u64_or(entries[m].at("index"@), 0) as usize) < 20,
        20 * b + (u64_or(entries[m].at("index"@), 0) as usize) < pool.len(),
    ensures
        all_batch_scores(replies, pool).contains(
            ScoredPaperView {
                paper: pool[20 * b + (u64_or(entries[m].at("index"@), 0) as usize)],
                score: crate::ranker::entry_score(entries[m], true),
                rationale: str_or(entries[m].at("rationale"@), ""@),
            },
        ),
    decreases replies.len(),
{
    let n = replies.len() as int;
    let pre = replies.drop_last();
    let p0 = all_batch_scores(pre, pool);
    let all = all_batch_scores(replies, pool);
    let idx = u64_or(entries[m].at("index"@), 0) as usize;
    let x = ScoredPaperView {
        paper: pool[20 * b + idx],
        score: crate::ranker::entry_score(entries[m], true),
        rationale: str_or(entries[m].at("rationale"@), ""@),
    };
    if b < n - 1 {
        assert(pre[b] == replies[b]);
        lemma_batch_scores_placed(pre, pool, b, entries, m);
        let q = choose|q: int| 0 <= q < p0.len() && p0[q] == x;
        assert(all[q] == p0[q]);
    } else {
        let batch = batch_of(pool, b);
        assert(batch.len() > idx);
        assert(batch[idx as int] == pool[20 * b + idx]);
        crate::ranker::lemma_scored_entries_place(entries, batch, true);
        let sc = scored_entries(entries, batch, true);
        assert(sc.contains(x));
        let q = choose|q: int| 0 <= q < sc.len() && sc[q] == x;
        assert(all[p0.len() + q] == sc[q]);
    }
}

} // verus!
