# sub_switcher

A verified core for switching between saved Codex CLI (ChatGPT) logins and
for the loopback proxy that forwards the CLI's requests with the selected
account. Every decision is stated in `requires`/`ensures` contracts and
proved with Verus; the program around it only reads and writes files, runs
processes and moves HTTP bytes.

- `src/` — the library, verified:
  - `accounts`: credential validation (`auth.json`), profile identities,
    store decisions (import, switch, removal, refresh, listing);
  - `launcher`: device sign-in prompt parsing, sign-in supervision steps,
    shell quoting, the `codex-switch` launcher and CLI overrides;
  - `proxy`: client authorization, request admission, forwarded headers,
    retry and refresh decisions, connection and refresh answers;
  - `resets`: reset credits and the idempotency record of a reset, which
    reads back as written;
  - `usage`: reported limit windows, labels, reset timing, observed resets;
  - `config`: reversible `config.toml` edits and their refusals;
  - `tray`, `ui`, `windows`, `notifications`, `activity`: what the menu and
    windows show and when they act, and the readings kept per listed account;
  - `text`, `doc`, `clock`: character helpers, parsed JSON/TOML documents,
    instants.
- `tests/` — tests of the library against the real outside crates.
- `app/` — the command-line program: file I/O, processes, the HTTP server.
