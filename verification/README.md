# codex_island

The verified core of a desktop "island" that shows the Codex usage quota.

- `src/` is the Verus library:
  - `text` — character-level operations (equality, trimming, ASCII lower-casing,
    substring search, prefix stripping, decimal rendering) with specifications;
  - `json` — a model of a parsed JSON document and the accessors the mapping reads;
  - `json_text` — JSON string literals: the escaping serde_json applies, how a
    literal reads back, and the round trip between the two;
  - `usage` — the mapping of the usage response onto the quota summary: weekly
    window choice, reset-credit expiry search, plan and credit fields, messages;
  - `language` — the stored interface language, tray labels, the language
    submenu, tray-menu dispatch, and the language-change script;
  - `foreground` — the foreground-window geometry that decides immersive mode,
    and the cursor hit test;
  - `clock` — the refresh timestamp;
  - `refresh` — the background refresh schedule (60 s after success, backoff
    from 30 s up to 30 min after failures, due times on the wall clock).
- `tests/` exercises the library on concrete values.
- `app/` is the Tauri shell: windows, tray, commands, file and network access,
  and the floating-point window geometry.
