# book_studio

The rules of a long-form fiction writing studio, verified with Verus: how
agents are configured per genre and stage, what context they are given, how
their replies are read, and how drafts are checked against what the book has
already established before a human approves them.

## Layout

- `src/` — the library. Every function carries a contract that Verus proves,
  except the small wrappers marked `#[verifier::external_body]` that call
  `serde_json`, `sha2`, `aes-gcm`, `base64`, `rand` and a few `std` string
  functions: their contracts are trusted, not proved, and each says in its
  doc comment what it claims of the outside code.
  - `text`, `text_facts`, `json` — text and JSON values as the rules read
    them, and facts about trimming, lines and joining.
  - `stage`, `genre_skill`, `genre_agent`, `agent_tools` — stages, genre
    skills, genre agents and the tool registry.
  - `chapter_memory` — the hand-over memory between chapters, validated
    against the chapter text.
  - `continuity_ledger` — the ledger of entity states and the check of a
    candidate draft against it.
  - `context_search`, `search_hits` — planning history searches and
    gathering what they find.
  - `gate` — the quality and continuity gate before a chapter is approved.
  - `ai`, `ai_reply`, `stream_reply` — provider options, the checks and
    requests before a call, retries, and the reading of chat replies, tool
    plans and streamed replies.
  - `adoption` — turning extracted candidates into knowledge cards and
    foreshadowings.
  - `crypto` — encryption of stored API keys.
  - `agent_run_service`, `index_jobs`, `db` — the decisions of agent runs
    (and the fingerprint of their context), background index jobs and the
    store.
- `tests/` — tests of the library on concrete values.
- `app/` — the shell: serde forms of the records, reading model replies into
  them, the device key file and the environment.
