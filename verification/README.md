# reel

The core of the Reel media client for Plex and Jellyfin servers, written in
Verus. Every function in `src/` carries a `requires`/`ensures` contract that
Verus proves; the few calls into `std`, `reqwest` (URLs, status phrases) and
`md5` go through small trusted wrappers whose contracts are stated in their doc
comments.

## Layout

- `src/` — the verified library.
  - `library_filter` — filtering, searching, sorting, filter pills and their
    reconciliation against a library.
  - `session_cache` — the in-session LRU cache of library listings and the
    Home payload, with epochs and invalidation.
  - `watch_state` — progress saving, timeline reports and the single
    scrobble of a playing item.
  - `plex`, `jellyfin` — payload conversion, endpoints, transcode decisions
    and profiles, sign-in steps, error mapping, play sessions.
  - `sync_plan`, `poster_queue`, `source_coordinator`, `workers` — the
    decisions of syncing, artwork downloads, source start-up and the
    background workers, as functions from state and outcome to next state
    and action.
  - `decimal` — ratings in hundredths printed exactly as their binary64
    value prints with one decimal.
  - `keyed`, `text`, `media`, `identity`, `image_cache`, `mpris`,
    `visibility`, `stream_cache`, `screensaver`, `playback` — shared models
    and helpers.
- `tests/` — tests on concrete values.
- `app/` — the unverified shell: HTTP clients, file storage, serde copies of
  the wire types, MPRIS metadata with floating-point times.

## Laws proved

Besides each function's exact contract, `src/` states and proves laws over
all inputs or runs of calls, among them:

- removing a filter tag drops exactly that tag's pills, keeping the rest in
  order (`lemma_remove_drops_its_pills`); reconciliation is idempotent and
  keeps only values the items offer (`lemma_reconcile_settles`);
- a playback session scrobbles exactly once when some position reaches 90%
  of a positive duration, and never otherwise
  (`lemma_scrobble_exactly_when_passed`); an item without a rating key is
  never reported to a timeline;
- cache writes hand out strictly increasing epochs
  (`lemma_write_epochs_increase`); a library write keeps the count within
  capacity and leaves other entries and Home untouched (`lemma_put_law`,
  also stated by `put_library` itself), and a read changes no key's lookup;
  the Home key ignores source order and tells different source sets apart
  when no id holds `|` (`lemma_source_set_key_distinct`);
- a backend sync counts exactly its successful steps and reports its
  failures in order (`lemma_sync_run`);
- Jellyfin play sessions: a stop closes them, a transcode session is reused,
  a started session sticks.
