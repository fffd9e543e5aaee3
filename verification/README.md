# cobalt

The core of Cobalt SQL Works, a desktop SQL client for SQL Server, Azure SQL and Microsoft
Fabric, written in Verus: its contracts are proved, not only tested.

## Layout

- `src/` — the verified library.
  - `text` — character-sequence helpers the rest is built on (trimming, searching, decimal
    and hexadecimal text, parsing numbers).
  - `ids`, `secret`, `profile`, `connstr`, `sqltype`, `catalog`, `engine`, `message`,
    `settings` — the plain data of saved connections, connection-string import, column
    types, catalog objects, engine capabilities and user settings.
  - `error`, `entra`, `token`, `pkce`, `loopback`, `flows`, `cancel` — Microsoft Entra ID
    sign-in: configuration and endpoints, what each token request sends and what each answer
    means, PKCE, the loopback redirect, JWT display claims.
  - `secrets` — secret stores: an in-memory store, the OS credential store (with long values
    split into chunks), and the entry format of the plain-file fallback.
  - `provider` — the per-profile credential policy as a sequence of steps: cached token,
    silent refresh, interactive sign-in.
  - `update`, `editor`, `viewer`, `palette`, `history`, `grid`, `theme` — the application's
    logic: version checks, editor text operations, cell viewers, palette ranking.
- `tests/` — tests of the library.
- `app/` — the code around the library: HTTP, the loopback listener, the plain-file store,
  running the credential policy, the update check, serde forms and settings with
  floating-point sizes.
