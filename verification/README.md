# ringer

An HTTP uptime checker. Users register checks (a URL and a rate in
seconds); a background checker fetches each due URL, records the run, and
posts a chat alert when the last status was an error. An HTTP API lists,
adds, runs, deletes and publishes checks.

- `src/` is the verified library (Verus): request validation, the check
  and session records and their rules, alert composition, invite codes,
  and the decimal and date texts these emit. Contracts are stated over
  mathematical views; the calls into `chrono`, `chrono-humanize`, `url`,
  `pwhash` and `rand` stand behind small trusted wrappers whose contracts
  are documented where they are declared.
- `app/` holds the programs around it: the `sharp_pencil` API servers, the
  checker loop, the `diesel` database layer and `curl` transfers.
- `tests/` exercises the library on concrete values.
