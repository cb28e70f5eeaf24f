# domain-suggest

A desktop tool that asks a language model for brandable base names, expands
them with a set of TLDs and checks the availability of every domain through
WhoisFreaks, RDAP or DNS-over-HTTPS.

## Layout

- `src/` — the verified library (Verus). Prompt construction and the parsing
  of model replies, TLD expansion, the availability decisions of each lookup
  service, credential and settings state, the results board and the ordering
  and export of the results table, and the worker's decisions. Every public
  function states its result in `ensures`; the `law_*` proof functions state
  properties that span several calls.
- `tests/` — tests of the library on concrete values.
- `app/` — the program around the library: the egui interface, HTTP requests,
  file I/O, the Tokio worker and the serde records of the library's types.
