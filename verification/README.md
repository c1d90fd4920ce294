# riposte_social

The verified core of a self-hosted social platform: the rules behind its
accounts, content and admin endpoints, written in Verus with contracts
that Verus proves.

- `src/` — the library. Account state machine and password/OIDC/TOTP
  authentication (`auth/`), the self-service flows (`self_service`), admin
  user management (`admin_users`), password policy (`password`), at-rest
  encryption (`crypto`), categories, articles, albums, engagement
  summaries, access codes and DOCX personalisation, the contact form,
  email links, feed cursors (`paging`), error answers (`errors`), the
  access dashboard (`access_logs`), moderation, site configuration, and
  the database URL and connection retries. `text` holds the string and UTF-8
  reasoning the rest builds on.
- `tests/` — tests run against the compiled library with its outside
  crates linked.
- `app/` — the server-side glue Verus does not see: environment reading,
  JSON forms of the request and response types, and the HTTP form of
  errors.

Outside crates (AES-GCM, Argon2, BLAKE2, HMAC, base64, hex, chrono, uuid,
totp-rs, zip, url) are called through small trusted wrappers. Each
contract states what the call returns as far as it is a function of the
arguments (often through a named result); random draws, the clock and
whether the ZIP writer accepts a part are left unstated. The library's own parameters (TOTP algorithm,
digits, step, skew, issuer) are passed into the wrappers, never fixed in
them.
