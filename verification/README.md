# peltier

The trust layer of a performance-optimization harness, as a verified Verus
library: an agent proposes a patch, and this code decides whether it may be
applied, which gates it passed, whether a bench accept stands, and what the
ledger records.

## Layout

- `src/` — the verified library. Each function carries a contract over
  mathematical models (`Seq<char>` for text, spec functions for parsers and
  renderings), and the library's laws are public proof functions:
  - `allowlist` — diff-header path vetting (`law_diff_passes_iff_every_header_safe`,
    `law_diff_vetted_line_by_line`, `law_git_header_split_is_lossless`);
  - `daemon` — request-field checks, shell quoting (`law_shell_quoting_reads_back`),
    the detached pipeline scripts, source windows and log tails;
  - `gates`, `orchestrate` — gate outcomes and their grading, `FUZZ-RESULT`
    parsing, the fuzz plan, the core gate report;
  - `verdict`, `ledger` — the verdict caps (`law_caps_never_upgrade`,
    `law_accept_needs_all_evidence`, `law_gate_failure_rejects`), what the
    ledger records, sanitizer-lane grading;
  - `risk` — the lexical risk classifier (`law_signals_read_changed_lines_only`,
    `law_signals_of_changed_lines_joined`, `law_appending_lines_keeps_signals`);
  - `schedule` — the interleaved A/B schedule (`law_schedule_balanced`,
    `law_measured_runs_per_side`);
  - `policy` — byte-identical comparison and tolerance tokens;
  - `pin`, `target`, `counters`, `exec`, `fingerprint`, `explain`, `ranking`,
    `service`, `rng` — manifests and SHA-256 pins, target templates, perf CSV,
    RSS units, machine fingerprints, explanation text, class evidence
    counts, server command lines, the bootstrap's generator;
  - `text` — the character-sequence toolkit they share.
- `tests/` — tests of the library on concrete values.
- `app/` — the process edge: command lines, files, git, sockets, SQLite,
  JSON/TOML, threads, and the floating-point statistics (bootstrap CIs,
  the accept threshold, the Wilson bound, ROI).

The one outside call inside the library is SHA-256 (`sha2`), behind the
wrapper `pin::sha256_bytes`, whose result is named `pin::sha256_digest`.
