# Greed of Exile

A wealth tracker for Path of Exile stash tabs: it prices the items of the
tracked tabs with poe.ninja, records snapshots of the total, and charts them.

The library under `src/` holds the tracker's logic. Its functions are proved
with Verus against their contracts, except three small wrappers whose contracts
are believed rather than proved: `text::push_char` (std's `String::push`),
`stash::url_with_params` (the `url` crate's `Url::parse_with_params`) and
`stash::hash_string` (std's `Hash` for `String` into a `DefaultHasher`).
Its modules:

- `text`: string equality, prefixes, code-point order, decimal and hex notation.
- `names`: tables and sets keyed by item names.
- `models`: configuration, stash and poe.ninja data, price caches, history.
- `api`: poe.ninja URLs, sorted league lists, price and icon tables.
- `stash`: stash requests and responses, image URLs and cache file names.
- `interval`: automatic snapshot periods, boundaries and the countdown.
- `chart`: the three-day chart window and its points.
- `snapshot`: what a snapshot counts and the steps of a snapshot run.
- `state`: the tracker's state and how events, frames and clicks change it.

Prices and totals are `f64` values; the library holds them as their bit
patterns and leaves the arithmetic on them to the program.

`app/` is the program around it: the window, the network and file I/O, and the
JSON shapes of the APIs and saved files.
