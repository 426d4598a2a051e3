# capi

HDMI-CEC control over HTTP and MQTT, with the rules verified in Verus.

- `src/` is the library. It decides: which libcec calls a session may make and what their answers
  mean (`cec`), how an action is carried out on devices of a vendor (`strategies`, `strategy_run`),
  what is known of the bus (`busstate`, `steward`, `topology`, `dispatch`), when a session is opened
  and reopened (`supervisor`, `adapter`), who may make a request and what it is answered (`server`),
  what the pages show (`ui`, `ui_ctx`), what an update may install (`update`), and what the
  configuration and the command line come to (`settings`). Every function has a contract; public
  proof functions named `law_*` state what holds across functions.
- `app/` is the program around it: libcec, HTTP, MQTT, files, threads and the clock.
- `tests/` runs the library on concrete values, with the outside crates linked.

The library performs no I/O. Where work outside of it is needed, a function returns the call or the
action to make, and another function takes in what came of it. Points in time are arguments.

What is taken on trust is marked `external_body` or `assume_specification`: JSON values of
`serde_json` (`json.rs`), RFC 3339 texts of `chrono` (`time.rs`), SHA-256 of `sha2` and hexadecimal
texts of `hex` (`update.rs`), and the Unicode case, UTF-8 and quoting functions of the standard
library (`text.rs`).
