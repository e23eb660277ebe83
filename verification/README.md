# quota_critter

The verified core of Quota Critter, a tray widget that shows the Codex account quota.

- `src/` is the library, verified with Verus:
  - `redact` masks sensitive values (`accessToken`, `refreshToken`, `apiKey`, `authUrl`,
    `email`) and the home directory in log lines, with its laws;
  - `quota` turns rate-limit replies into quota windows and snapshots;
  - `settings` holds the user's settings;
  - `refresh` decides when to refresh, retry and back off;
  - `window` checks external URLs and keeps the widget inside the work area;
  - `codex` finds and launches the Codex CLI (names, platform matching, candidate
    choice, the bounded directory walk, launch arguments, error codes);
  - `text` holds the character-sequence helpers the others use.
- `app/` is the Tauri application around it: the app-server process and its JSON-RPC
  traffic, files, the tray and windows, and the floating-point reading of reply numbers.
- `tests/` runs the library on concrete values.
