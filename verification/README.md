# lemon_colonies_client

The client of the Lemon Colonies game, with its logic verified by Verus.

- `src/` is the verified library:
  - `storage`: an in-memory key-value store of strings and its stored
    byte format (length-prefixed UTF-8 fields), with the laws that a read
    gives back the last write and that a saved image reopens to the same
    entries;
  - `server_time`: calendar date and time of day of a Unix timestamp in
    the proleptic Gregorian calendar, and its text form;
  - `i18n`: locales and the keys under which texts are translated;
  - `ui`: identifiers of panels, tabs and windows, their glyphs, the set
    of open windows, and the icon images cut out of the texture atlases;
  - `raster`: RGBA pixel images decoded with the `image` crate and
    cropped as `image` crops them;
  - `ws`, `http`: the states of the connection to the game server and of
    requests to its HTTP API, and how each event changes them;
  - `game`: the decisions the client draws the world by (which chunks stay
    loaded, where the territory outline runs, whether a placement leaves
    the territory) and the atlas positions of terrain sprites;
  - `settings`, `text`: small helpers.
- `app/` is the program around it: the window and render loop, networking,
  file and browser storage, the floating-point clock synchronisation and
  camera, and the egui interface.
- `tests/` exercises the library on concrete values.

Two collections are held as vectors in `src/`: the store's entries (a
`HashMap<String, String>` in a plain client) and the set of open windows (a
`HashSet<WindowId>`). vstd specifies `HashMap` and `HashSet` only under
`obeys_key_model` of the key type, which it grants to integer and boolean
keys; for `String` and for a type with a derived `Hash` it could only be
assumed, and that is not done here. The vectors carry the properties the
hashed collections had as invariants (no key twice, no window twice). They
also fix an order that a hashed collection leaves open: entries and windows
are enumerated in the order in which they were first added.
