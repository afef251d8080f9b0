# wiremann

The verified core of the Wiremann music player's interface, written in Verus.

`src/` holds the decisions and bookkeeping of the interface, each function
with a contract that Verus proves:

- `fingerprint`: order-independent fingerprints of track and playlist sets.
- `order`, `rows`: the stable order of tracks by title and the rows of the
  library and playlist pages; the home page's rows by name.
- `timefmt`: play times, clock positions and calendar dates as text.
- `pages`, `routes`: page cycling, playback keys, library sections.
- `toasts`, `scanning`: toast notifications and the scan progress message.
- `lyrics`, `follow`: the line and word being sung, and what the lyrics and
  queue panels scroll to.
- `image_cache`: the least-recently-used cache of decoded images (over the
  `lru` crate) and the record of images asked for.
- `dashboard`, `sidebar`, `tracklist`, `covers`, `playlist_page`: which
  rows the home and stats sections show, the sidebar's entries, the
  favorites listed, the image on a card, and the cached rows of the playlist
  page; the captions and labels written on them.
- `keys`, `assets`: the keyboard shortcuts and their help, and the embedded
  files a directory lists or a request yields.
- `layout`, `popout`, `worker_config`, `icons`, `models`, `ids`: smaller
  pieces of layout, window and start-up logic, and plain records.

`app/` holds what stays outside: floating-point geometry and animation
curves, the monotonic clock, the channel to the image cacher, and error types
with derives. `tests/` runs the library on concrete values.
