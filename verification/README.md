# fediversekr

The validation, normalization and decision rules of the fediverse.kr
directory, catalog, community and membership services, written in Verus and
proved against their contracts.

## Layout

- `src/` — the verified library, one module per area:
  - `text`: character-level models of trimming, CRLF folding, control
    characters and UTF-8 length, with the lemmas that normal text is stable.
  - `auth`: login identifiers, display names, password limits and Argon2id
    hashing policy, session tokens and grants (with their redacted text), and
    the credential and session decisions.
  - `catalog_editing`, `catalog_moderation`, `catalog_logos`: contributor and
    administrator catalog requests, including the proof that validation is a
    fixed point.
  - `community`, `moderation`: comment text, revisions and windows; the report
    state machine, bans and administrator roles.
  - `directory`, `crawler`: canonical domains, crawl leases and icon policy;
    nodeinfo link choice and reading, link resolution, icon candidate ranking,
    the choice among fetched icons, the crawl's order of steps and the bounded
    public transport.
  - `members`, `profile_refresh`, `store`: federated identity proofs, legacy
    membership claims, profile refreshes, pagination and store errors.
  - `activation`, `legacy`: the offline snapshot import and activation —
    table inventories, the startup gate, page checks, the length-prefixed
    fingerprint input (with the proof that it is unambiguous), the SHA-256
    fingerprint itself and commit rules.
- `tests/` — executable tests of the library.
- `app/` — the process around the library: asynchronous password work, the
  crawl loop over a network transport, HTML icon discovery through html5ever,
  change notifications and the activation command.
