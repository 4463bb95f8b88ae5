# saas_starter

The verified core of a Loco + Leptos islands web starter, written in Verus.

`src/` holds the logic the server runs on, each function with a contract
that Verus proves:

- `settings`: the typed `settings:` block and its boot-time checks (rate
  limit numbers, the Content-Security-Policy template, the restart hour).
- `render`: the per-request CSP with the nonce filled in, and the proof that
  a template that passed the boot check accepts every valid nonce.
- `rate_limit`: the limiter's key source (refusing a shared bucket when
  deployed), the bucket key of a request, the 429 page and its headers, and
  whether the middleware is on.
- `maintenance`: the nightly restart: the boot decision, the next restart
  time, the daylight-saving edges (through `chrono-tz`) and the wait.
- `assets`: the stylesheet name from the release hash file.
- `robots`, `layout`, `mail`, `app`: the small texts the server sends.
- `text`, `header`, `clock`, `environment`: the string, header and time
  models the contracts are stated over.

`app/` is the server around it: the Loco hooks, routes and middleware, the
Leptos views, and everything that reads the clock, the disk or the process
environment.
