# paper_search

A verified library for an academic paper search agent: a language model searches
OpenAlex through tools, the papers it gathers are scored in batches, split into tiers
and summarized. The library is written in Verus; its functions carry contracts that
Verus proves.

## Layout

- `src/` — the library, verified.
  - `agent.rs` — the search agent as a state machine (`AgentRun`): each step takes what
    the outside world returned and gives the progress events and the next call to make.
  - `tools.rs` — the agent's tools, their planning and the answers they give.
  - `orchestrator.rs` — prompts, the opening message, batch scoring, drops, and the
    result of a cancelled search.
  - `ranker.rs`, `result_organizer.rs`, `search_engine.rs`, `query_decomposer.rs` —
    pre-filtering, scoring and tiers; summary prompt and topic graph; staged search and
    deduplication; search plans.
  - `openalex.rs` — OpenAlex addresses and the reading of works and abstracts.
  - `llm.rs` — reading chat replies, and the retry decisions of a chat call.
  - `commands.rs` — conversations, refinements, exports and ids.
  - `config.rs`, `json.rs`, `progress.rs`, `text.rs`, `sort.rs`, `types.rs` — support.
- `tests/` — tests of the library.
- `app/` — the HTTP clients, files and commands around the library (not verified).
