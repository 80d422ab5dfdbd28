# pqcas

The decision logic of the PQ-CAS lab services, verified with Verus, and the services
around it.

- `src/` is the verified library: the adapter contract (`proto`), the TLS client
  command lines and output parsers (`backend`), the adapter's settings (`adapter`), the
  status vocabularies (`status`), classification (`domain`), the ML-DSA parameter sets
  (`params`), the stream payloads and channels (`jobs`), the API's validation and task
  planning (`api`, `routes`), and the worker's adapter table, subtask handling and
  KEM DEMO decisions (`worker`). `text` holds the string model the contracts are stated
  over.
- `tests/` runs the library on concrete inputs.
- `app/` is one binary with three services (`adapter`, `api`, `worker`): HTTP, process,
  Postgres and Redis I/O around the library, and the JSON and SQL forms of its types.
