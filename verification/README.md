# tauriless

A manually pumped Tauri runtime for foreign-language hosts: the host sends
JSON requests, drains JSON messages, answers asset requests and chooses which
Tauri events reach it. The decisions are a library verified with Verus; the
Tauri application, the Windows shell calls and the C ABI are a thin layer
around it.

- `src/` — the verified library:
  - `bridge` — request validation and routing, the drain batch, shutdown and
    the application identity, as a state machine the caller drives;
  - `events` — the forwarded event names and the listeners every window and
    webview holds for them;
  - `assets` — numbering of asset requests and the responses built from the
    host's answers;
  - `webviews` — which webview window a forwarded request goes to;
  - `paths`, `shortcut`, `data_dir` — Windows path rules, the Start Menu
    shortcut and the webview data directories;
  - `headless` — the dispatch of a webview without a platform webview;
  - `text`, `order`, `error` — shared string helpers, string order and errors.
- `tests/` — tests of the library.
- `app/` — the Tauri plumbing, JSON (de)serialization, Windows calls and C ABI.
