# wowl

The verified core of Wowl, a desktop wallpaper app that fetches photos from
Unsplash, Bing, Lorem Picsum, Pixabay and Wallhaven, keeps a history of them,
and sets them as wallpaper or lock screen.

- `src/` — the library, verified with Verus:
  - `text.rs`: character-level string operations (trim, search, decimal, join).
  - `config.rs`: the settings and the search terms in them.
  - `providers.rs`: provider ids, the requests sent to each provider, how their
    answers are judged and turned into a `Photo`.
  - `fetch.rs`: the steps of fetching one photo: which request to send next,
    what a status, an answer or a failure leads to.
  - `history.rs`: the history index: adding (newest first, no duplicates,
    oldest out first), deleting, clearing, lookup.
  - `imaging.rs`: mirroring an image left-to-right.
  - `commands.rs`: what the UI is sent and the decisions behind wallpaper,
    lock screen and history mode.
- `tests/`: tests of the library on concrete values.
- `app/`: the Tauri application around the library: files, network, OS calls.
