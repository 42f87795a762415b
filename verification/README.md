# dale_actions

The metadata logic behind Dale's library actions, verified with Verus.

- `collect`: recognises MusicBrainz and Discogs album URLs, fills an album record
  from MusicBrainz JSON (artist credits, tracks of the media, choice of a
  representative release) or from Discogs records, and renders the album
  directory name and its TOML manifests (`metadata.toml`, `history.toml`,
  `virtual.toml`).
- `fetch`: validates MusicBrainz identifiers and the fetcher's command-line
  input, builds request URLs, pages through the releases of a release group and
  decides when a failed request is retried.
- `embed`: hashes cover art, decides when the cover on disk is embedded, which
  pictures survive a rewrite, reads a tag's items into one text per canonical
  key, and plans an album run (whether to write, whether to show the cover).

`src/` is the verified library (`laws.rs` holds properties across calls);
`app/` is the command-line program around it (HTTP, files, audio tags);
`tests/` exercises the library on concrete values.
