# for_you_feed

The rules behind a "For You" feed, verified with Verus.

* `src/candidate_pipeline` - the engine that runs a request through the stages of
  a candidate pipeline: filling in the query, bringing candidates in, filling them
  in, filtering, scoring, selecting, filling in and filtering once more. A
  `PipelineRun` says which components are to work next and takes in what came of
  it; a component that fails is as good as absent.
* `src/home_mixer` - the feed itself: its candidates and queries, twelve filters,
  six hydrators, and the pipeline that puts them in order.
* `src/thunder` - the in-memory store of recent posts behind it: the store, the
  service that reads it, and the workers that fill it from a message broker.
* `src/ordering.rs`, `src/seqs.rs`, `src/score.rs`, `src/status.rs`,
  `src/text.rs` - what these share: a stable sort, the order of floating point
  scores by their bits, refusals, and text.

`store_laws.rs`, `listener_laws.rs` and the `laws.rs` files state what holds of
several operations together.

The contracts rest on what the library says of the tables of `dashmap`, the random
identifiers of `uuid`, and the clock and the queues of `std`; each such statement
stands on a function marked `external_body`, under a comment that spells it out.

`app/` holds the processes around the library: command lines, clients, timers,
broker and network. They are generic in the clients of other services.
