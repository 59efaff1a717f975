# ironshelf

The logic of the Ironshelf e-book server, verified with Verus: what the server
decides and computes, with each public function's behaviour stated in its
`requires` / `ensures` and proved.

## Layout

- `src/` — the verified library, one module per feature:
  - accounts and sessions: `auth`, `account`, `login_state` (lockout and
    pending two-factor logins), `two_factor`, `media_token`, `sso`,
    `rate_limit`, `access`, `security_headers`;
  - libraries and books: `model`, `scan` (EPUB package documents), `folder`
    (folder libraries), `books` (filters, stable ordering, listing pages),
    `pagination`, `files`, `authors`, `server` (conversion, duplicates,
    genres), `stats` (reading streaks), `search_index`;
  - acquisition: `torznab` (feed parsing), `acquisition`, `acquisition_api`;
  - metadata: `metadata` (merging), `providers` (Google Books, Open Library);
  - exchange formats and devices: `opds`, `kobo`, `kindle`, `email`,
    `import_export`, `calibre_writeback`, `collections`, `reading`,
    `annotations`, `admin`, `config`, `error`;
  - foundations: `text`, `crypto`, `assoc`, `store`.
- `tests/` — tests of the library on concrete values.
- `app/` — the command-line program around the library: configuration
  files, directory browsing, clock readings, and the floating-point match
  scoring.

Calls into outside crates (hashing, HMAC, base64, Argon2, TOTP, ZIP, XML,
percent-encoding, dates) go through small trusted wrappers whose contracts
state what those crates document; everything around them is verified.
