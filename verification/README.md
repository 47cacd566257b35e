# recurl

curl that detects anti-bot blocking and escalates: it runs curl, and when
the response is blocked (a blocking status code, or a known anti-bot
signature in the body when the status code is unknown; a known status that
is not blocking, such as 200, never escalates) it retries with TLS impersonation, then with a
headless Chromium preflight whose cookies are replayed with curl.

## Layout

- `src/` is the library, verified with Verus: argument parsing
  (`config`), response analysis (`detection`), the escalation state machine
  and its replay arguments (`escalation`), engines and impersonation
  profiles (`engine`, `impersonation`), cookies, preflight options and
  states, stealth patches and browser flags (`js_preflight`), and the
  daemon's bookkeeping: browser states, the pool, the per-domain cookie
  cache, lifecycle decisions and messages (`daemon`). Readings of the clock
  go through `clock`; string helpers with their specifications are in
  `text`.
- `app/` is the program around it: running curl and the impersonation
  engines, stdin buffering, launching Chromium, the daemon's socket and
  JSON messages, and the `recurld` daemon (the same program run under that
  name).
- `tests/` exercises the library.

The main properties proved are stated as public proof functions next to
the code they are about: the escalation advances at every step and writes
exactly one response, an unblocked response passes through unchanged, the
status marker appended to curl's output is read back exactly (and output
without it comes back unchanged), detection ignores the case of ASCII
letters, a tracker's use count counts its uses, curl's own
arguments pass through parsing untouched, cookies and cached cookies read
back what was stored, and the browser pool never grows past its maximum
nor keeps an unhealthy browser.
