# blobdump

Tools for looking into the redb database of an iroh blob store, and a small notes
node that links the store's complete blobs into an iroh document.

- `src/` is the verified library: hex and decimal rendering, the `{:02x?}` byte
  listing, the text/mixed/binary classification of stored blobs, the lines listed
  for each table's entries, and the node's linking decisions. Each is specified
  over `Seq` models and proved with Verus, together with laws such as the
  injectivity of the hex and listing renderings.
- `app/` holds the I/O: opening the database and walking its tables, and the
  async iroh node.
- `tests/` checks the library on concrete values, including against std's own
  formatting.
