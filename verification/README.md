# lyra

The state and decision logic of the Lyra music player, written in Verus
and proved against its contracts.

- `src/` is the verified library:
  - `library`: tracks, albums, artists and playlists, with their views;
  - `search`: the case-insensitive library search and its index maps;
  - `order`: stable sorting by text or numeric keys;
  - `artists`: the artist index, merged batch by batch;
  - `images`: album covers and artist avatars kept by name;
  - `state`: the loaded library, reload generations and the handlers for
    asynchronous load and scan results;
  - `reload`, `session`, `playback`, `navigation`, `providers`, `marks`,
    `cover`, `podcasts`, `credentials`, `convert`, `presets`, `settings`:
    the decisions the message handlers take;
  - `delimiters`, `uri`, `episode`, `text`: the small text formats the
    player reads and writes;
  - `clock`, `flags`: the wall clock and the start-up flags.
- `tests/` exercises the library on concrete values.
- `app/` holds the file-system, data-directory and floating-point edges.
