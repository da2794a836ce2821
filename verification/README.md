# libsy

A provider-agnostic library for multi-LLM agent optimization, with routing as the first case.
libsy decides how to serve each request: which models to call, in what order and how to combine
them. It owns no HTTP client and no provider SDK. Its behaviour is stated in Verus contracts and
proved.

## Algorithms are state machines

An algorithm never makes a call itself. `create_run_task` begins the run of a request and returns
the first `Action`; `resume` continues the run with the `Event` that answers it. An action
publishes a decision, performs one model call or several, has a text read as a number, or
finishes the run. One algorithm serves many runs, whose steps may interleave. Decisions are
published as they are made, each before the calls it is behind.

- `rand::RandomOrchAlgo` chooses a target at random and calls it.
- `llm_class::LlmClassifierOrchAlgo` asks one model for a score, then routes to a strong or a
  weak model. A reply that is no number routes strong.
- `ensemble::EnsembleOrchAlgo` fans out to candidates, has a judge pick the best response and
  commits to the winningest candidate after a number of exploration turns.

## Layout

- `src/` is the verified library. `task` holds the protocol above, `target` and `types` the data,
  `driver` and `run` what the outcomes of the step transport mean, `json`, `conversation` and
  `proxy` what a proxy reads and writes, `score`, `tally` and `text` the parts they share, and
  `laws` what holds over whole runs and in every state.
- `tests/` runs the library with in-process clients.
- `app/` is a host: tokio channels and tasks around the state machines, clients, the number
  parsing that takes floating point, and a demo proxy on switchyard's server and backend. Its
  strong model is configured by the environment.

The library calls `rand` for the random choice and carries `serde_json` values unread. What is
taken on trust about either stands in the doc comments of `rand::choose_target` and of the items
at the top of `types`; `text` does the same for `char::is_whitespace`.
