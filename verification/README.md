# frontier

The core of the Frontier browser as a verified library: what address-bar input means,
the back/forward history, the Nostr name system (claims, scoring, ranking, the claim
cache), Blossom manifests and blob hashes, the scripts of a page and how they are
scheduled, what scripts read of the document tree and how it is written back as HTML,
DOM patch and listener bookkeeping, page timers, the browser chrome and error
pages, certificate pinning, the automation protocol's rules, the WebDriver session table, and Web Platform Test
reports.

- `src/` — the library, verified with Verus. Calls into outside crates (`url`, `nostr-sdk`,
  `kuchiki`, `sha2`, `hex`, `base64`, `percent-encoding`, `html-escape`,
  `serde_urlencoded`, `x509-parser`) go through small trusted wrappers whose contracts
  are stated next to them.
- `tests/` — tests of the library, run with the real outside crates.
- `app/` — the program around it: network and file access, the SQLite claim cache,
  Nostr relay queries, the Blossom fetcher, TLS plumbing, the automation client, and a
  command-line entry point that loads a page and prints it inside the browser chrome.
