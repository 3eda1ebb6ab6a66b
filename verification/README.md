# odradek-acceptance

An acceptance suite for the Kafka protocol that judges either side of the
wire: run it against a server, and the suite acts as a client; point a client
at it, and the suite impersonates a cluster. Every check carries a stable id
and the requirement it verifies, so that reports can be cited, and compared
between implementations.

The decisions are a verified library. What the suite sends, what it makes of
each answer, which finding it reports, how the impersonated cluster and the
reference subject answer, how runs compare with baselines: each function states
what it returns or changes, and [Verus](https://github.com/verus-lang/verus)
proves that it does.

## Layout

| Path | Holds |
|---|---|
| `src/report.rs` | Outcomes, reports, baselines and the differences between them. |
| `src/args.rs`, `src/control.rs` | The command line, exit statuses, and the command that stops and starts brokers. |
| `src/text.rs`, `src/table.rs`, `src/wire.rs`, `src/raw.rs` | Texts, tables, the messages as plain values, wire errors and TLS trust. |
| `src/checks/` | The catalog and its checks. |
| `src/subject/` | The reference subject: a cluster that can be wrong in one named way at a time. |
| `tests/` | Examples on concrete values, and calibration: the conformant subject passes, and each fault is caught. |
| `app/` | The program around the library: sockets, TLS, the message codec, JSON files. |

## How a server check runs

A check is a function of what has happened so far. It is given the events of
its run, in order, and says either which action comes next or what the verdict
is. The program performs the action and appends the event. So a check opens no
connection itself, and what it concludes from a given run can be stated and
proved. `checks/tape.rs` holds the actions and events, `checks/flows.rs` and
its neighbours what several checks share, and `checks/server_*.rs` the checks.

The client checks judge a recorded session (`checks/client_checks.rs`), which
the impersonated cluster (`checks/harness.rs`) keeps while it answers.

## What is proved beyond the contracts

Public functions named `law_*` state what holds of the library as a whole, for
example that ids are unique and runs execute the catalog, that a subject the
suite never reached is not blamed, that a run matches its own baseline, that
what was produced is what is fetched, that a retried batch is stored once, and
that a check's judgement fails on a fault's answers and passes without it.

`checks/conformance*.rs` join the two sides. There a run is a tape whose every
event is what came of the action that the check asked for, with each answer
showing what the reference subject serves. `law_subject_passes` says that such a
run against the subject without faults, if it has ended, has ended in a pass,
and `law_fault_is_caught` that one against the subject with a fault that the
check is there to catch has ended in a failure. Four of the checks are left
out of both: the three of the SCRAM exchange, which rests on hashes that are
computed elsewhere, and `fetch/long-poll-contract`, which judges how long an
answer took. `checks/trial.rs` says which fault each check is there to catch.

What comes from elsewhere is believed, not proved, and said so where it is
called: `Debug` of strings and durations and lossy UTF-8 decoding of the
standard library, gzip from `flate2`, and reading PEM texts, certificates and
server names from `rustls`.
