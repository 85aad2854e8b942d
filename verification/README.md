# jobhunting

A self-hosted job search and CV tailoring tool: it browses JobStreet
listings, screens each job against a markdown career profile, has an LLM
write a tailored CV, critiques and fact-checks it, and serves the results
in a small web UI.

The decisions are a verified library; the program around it is plain Rust.

- `src/` — the library, checked by Verus. Every public function states what
  it returns in `ensures`; the `law_*` proof functions state properties that
  span calls.
  - `text`, `sorting`, `assoc` — character sequences, ordering, key lists.
  - `json` — the JSON value model the pipeline reads and builds.
  - `profile`, `wiki_graph`, `lint`, `ingest` — the profile knowledge base,
    its wikilink graph, lint findings and the ingest agent's tool plan.
  - `provider`, `transport` — LLM providers, request bodies, reply reading,
    the retry and tool-loop decisions.
  - `roles`, `pipeline` — the LLM roles (task, tool schema, mock answer)
    and the CV pipeline's decisions.
  - `crawler`, `settings`, `views` — crawl selection, settings rules, and
    the values the pages show.
- `app/` — the web server (axum), SQLite (sqlx), HTTP calls to the LLM,
  the Python scrapers and the background loops; it calls the library for
  every decision.
- `tests/` — tests of the library on concrete values.
