# transitops_backend

The rules of the TransitOps operations backend — route and trip editing,
dispatching and conflict detection, configuration versions and staged
rollouts, notifications, payments and refunds, statement reconciliation,
reporting and alerting — as a library whose functions carry Verus contracts
and proofs.

## Layout

- `src/` — the library, verified with Verus.
  - `auth`, `rbac`: sessions, logins and lockout, the role policy.
  - `ops`: route and trip checks, configuration payload merging and diffing,
    rollout stages.
  - `dispatcher`: the trip lifecycle and conflict detection.
  - `notifications`: fan-out decisions, do-not-disturb, subscription rules,
    channel message formats.
  - `payments`: callback signatures and replay checks, gateways, import files,
    refund and compensation steps.
  - `reconciliation`: statement import validation, duplicate detection and
    the matching engine.
  - `reporting`, `alerting`: metric definitions, report runs, alert drafts.
  - `crypto`: field encryption with key rotation, digests, masking.
  - `json`, `text`, `money`, `date`, `table`, `utf8`: the plain values the
    rules work on (JSON values, decimal amounts in micro-units, dates, CSV
    tables).
- `tests/` — tests of the library.
- `app/` — the HTTP server (actix-web, PostgreSQL through sqlx): routes,
  storage, the background loops and the outbound channel connectors. It hands
  the library plain values and acts on what comes back.

Times are Unix seconds (Unix microseconds for sessions, login locks and
re-authentication), identifiers are the 128-bit values of UUIDs, and amounts
are integers in millionths of a currency unit, read from decimal text
(exponent forms included) and rounded to the nearest millionth.
