# velo

The verified core of the Velo self-hosted mail server, written in Verus.

- `src/` — the library, every function verified:
  - `users` — accounts, roles, the sign-in and admin-route checks, user management rules;
  - `passwords` — Argon2 hashing and verification;
  - `ids` — random ids, session tokens, per-user data file names;
  - `secret` — AES-256-GCM sealing of stored mailbox passwords (`iv:ciphertext` in Base64);
  - `mailboxes` — who may list and use which mailbox, and their connection configurations;
  - `smtp` — Base64url payloads, the SMTP envelope, transport choice, outcome wording;
  - `notifier` — new-mail polling decisions and the notification e-mail;
  - `gateway` — SQL gateway decisions (transaction recovery, error texts, column kinds);
  - `profile` — display name and signature resolution;
  - `codec`, `text` — Base64, UTF-8 and string helpers.
- `tests/` — tests of the library.
- `app/` — the HTTP server (axum, sqlx, lettre) around the library.
