# streams

Generators of test data for the Nominal streaming service: counting channels, lateness scenarios,
the telemetry of single satellites, and fleets of thousands of satellites with an asset each and a
run per session.

`src/` is a Verus library. It holds the logic, every function with a contract that Verus proves:

- `lateness`, `schedule`, `schedule_laws`: when each point of a scenario is stamped and handed over.
- `counters`: the counting channels.
- `json`, `samples`, `pipeline`, `pipeline_laws`, `dispatch`, `csv`, `collectors`: from a collected
  JSON record to samples with change marks, mirrored samples, log entries and lines of a file.
- `config`, `satgen`: fleets, and satellites that follow from their names.
- `double`, `binary`, `quotient`: doubles as bit patterns, and their sums, shares and quotients
  rounded as the hardware rounds them.
- `engine`, `rates`, `telemetry`: pacing, counters, send rates and the fixed figures of telemetry.
- `nominal`, `requests`, `provision`, `provision_laws`: settings, requests to the service, and the
  provisioning of assets.
- `tui`, `tui_events`, `tui_laws`, `panels`: the terminal application as a state machine, and its
  texts.
- `text`, `assoc`: decimal renderings, padding, joining; maps over keys that can be compared.

Times are whole nanoseconds and doubles are bit patterns, so that the proofs speak of exact values.
Calls into `serde_json`, `conjure-object` and `url` go through a few functions marked
`external_body`, each with the claim that is believed of it.

`app/` is the program around the library: command line, clocks, threads, terminal, network, and the
floating-point orbit model. `tests/` runs the library on concrete values.
