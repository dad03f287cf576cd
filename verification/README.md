# rhb

An HTTP load tester whose logic is a Verus-verified library.

- `src/` is the verified library: header and method parsing, configuration
  merging (command line over file over defaults), request templates with
  random placeholders, data-set selection, an integer token bucket, the
  result aggregator, and the decisions of the load workers (stop conditions,
  request numbering and warm-up, retries, what is counted).
- `tests/` holds the tests of the library.
- `app/` is the program around it: argument parsing, file loading, the HTTP
  client, the async worker pool, and the report (terminal, JSON, CSV), whose
  statistics are floating-point.
