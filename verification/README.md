# kaoyan_focus

The verified core of 考研专注, a local-first desktop study-focus tool: the
rules behind its study mode (pomodoro focus, short and long breaks, pauses),
its checklist and review pages, alarms, e-mail reminders, the foreground
window monitor, and its two calendar bridges (CalDAV and Feishu).

The library is written in [Verus](https://github.com/verus-lang/verus): the
functions in `src/` carry `requires`/`ensures` contracts that Verus proves.
Calls into outside crates (`chrono`, `quick-xml`, `reqwest`'s URL type,
`serde_json`, `base64`, `lettre`) stand behind small `#[verifier::external_body]`
wrappers whose contracts state, or name, what the crate returns.

## Layout

- `src/text.rs` – string operations with their specifications (trim, split,
  join, search, decimal text) and the lemmas about them.
- `src/clock.rs` – instants and the `chrono` wrappers (parse, format, local time).
- `src/ics.rs`, `src/caldav*.rs`, `src/ics_roundtrip.rs` – iCalendar text,
  WebDAV multistatus answers, the CalDAV sync decisions, and the proof that an
  event written for a schedule block reads back as that block.
- `src/feishu_*.rs` – the Feishu bridge: settings, OAuth callback, tasklists,
  calendar and task sync decisions, request bodies, answers of the open API.
- `src/focus*.rs` – the study-mode state machine, elapsed-time bookkeeping and
  statistics windows.
- `src/checklist.rs`, `src/review.rs`, `src/alarm.rs`, `src/email.rs`,
  `src/monitor.rs` – the remaining pages and services.
- `tests/` – tests run against the compiled library.
- `app/` – a small command-line program around the library: SQLite access,
  HTTP and SMTP, the CalDAV and Feishu sync runs, and JSON output.

Run `verus` on `src/lib.rs` to check the proofs; `cargo test` runs the tests.
