# forge_watch

The verified core of a server that runs a pipeline and lets viewers watch it: over HTTP they load
the page, the graph, the status and the files that nodes leave, and control the run; over a
WebSocket they follow its events.

- `src/` is the library, verified with Verus.
  - `runtime`, `control`, `wake`: outcomes of nodes and runs, run configuration, cancel / pause /
    resume and the wake-ups of a waiting runner.
  - `events`, `status`, `pipeline`: how events and the life of a run move the status.
  - `event_log`, `ws_client`: the bounded log of events and what each client is sent from it.
  - `http`, `request`, `artifacts`, `server`: replies, requests, served files, and the state of the
    server.
  - `text`: strings and decimal numbers.
- `tests/` runs the library on concrete values.
- `app/` is the server around it: threads, sockets, signals, files and JSON encoding. The pipeline
  engine comes in through the trait `PipelineHost`.

The statements named `law_…` say what holds of the library as a whole: the log gives back what was
pushed into it, a client is sent every event once and in order, a head is read the same however it
is cut into reads, a stop is final, a waiting runner is woken when it need not wait any longer, and
no request leads out of the log directory.

What is believed without proof: that `httparse` parses a head by its bytes alone, that
`core::str::from_utf8` succeeds exactly on UTF-8, that a string slice and a string turn into a
`String` with the same text, that `WakeSignal::wake` makes its call of `Notify::notify_one`, and the
declarations of `tokio::sync::Notify` and `std::path::PathBuf`.
