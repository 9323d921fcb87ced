# fast_log

A channel-based logger: named loggers in a registry, each with a record
channel whose workers hand batches of records to its appenders.

- `src/` is the verified library (Verus): levels, records, settings,
  channels, the logger registry with `init`, `logger`, `print`, `exit`,
  `flush` and `Loggers`, the in-memory appenders under `plugin`, a
  coloured console filter and the example line formats. Records bound for
  a logger's channel are queued in the registry's outbox.
- `app/` holds the process-wide part: the global registry, sending the
  queued records on their channels, the worker threads, file and console
  output, and the binding to the `log` facade.
- `tests/` runs the library on concrete values.
