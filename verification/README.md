# ingestion

A telemetry ingestion pipeline whose decision logic is verified with Verus.

A pipeline has one receiver, an ordered chain of processors, and an ordered
list of exporter groups. The HTTP receiver turns JSON payloads into columnar
records; processors batch events or hold them back while memory is short;
the executor fans each batch out to every exporter group, in order, retrying
a group with exponential backoff; a group that exhausts its retries drops the
batch for itself alone, the groups after it still receive it, and the flush
then reports the exhaustion error.

## Layout

- `src/` — the verified library.
  - `json.rs`, `record.rs`: the JSON document model and the columnar record model.
  - `receiver/http.rs`: request-body parsing, payload validation and record
    construction, with exact error texts; `HttpReceiverConfig`.
  - `table.rs`: name-keyed tables; `config.rs`: the pipeline configuration.
  - `registry.rs`: the component registry and pipeline assembly: each
    component is what its registered factory returns for its own
    configuration entry, and the first failure in build order wins.
  - `executor.rs`: the retry protocol as a state machine (`Flush`) with its laws.
  - `pipeline.rs`: exporter groups, pipelines, the processor-chain decisions.
  - `engine.rs`: the start plan and the shutdown (close) plan, with their
    ordering laws.
  - `processor/`: batching and memory-gate decisions; `exporter/debug.rs`: what
    the debug exporter reports.
  - `types.rs`: events and batches; `attrs/`: reserved source attribute keys.
- `app/` — the program around it: YAML loading, the axum HTTP server, the
  async component traits, the pipeline loops and exporter calls, and the
  conversion of records to Arrow for display.
- `tests/` — tests of the library.
