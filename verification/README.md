# rhwp_edit

A verified editing core for HWP-style word-processor documents, and the server around it.

The library (`src/`, verified with Verus) holds:

- `model`, `document_core`, `para_list`, `lookup`, `cell_path`: the document tree
  (sections, paragraphs, tables whose cells hold paragraphs) and the primitive edits on it,
  each with an exact contract over the tree.
- `edit_op`, `apply`: the edit operations (insert/delete text, split/merge paragraphs, runs,
  styles, tables, cells, Enter, page breaks), what each does to a document, their affected
  ranges, their inverses, and the undo laws.
- `json`, `ir_view`, `ir_compact`, `ir_outline`, `ir_slice`, `ir_build`, `ir_filter`, `patch`:
  the JSON views served to clients and models (IR paragraphs built from the tree, runs of
  equal style, document defaults, the compact, outline and structure forms of a slice), the
  style and table filters, and the before/after summary of an edit.
- `xml`, `hwpx_table`: the HWPX (OWPML) form of tables as XML events and bytes.
- `session`, `store`, `storage`, `workbench`: the server's decisions that need no I/O.

`app/` is the HTTP/WebSocket server (axum, sqlite, an external file store); it only reads
requests, calls the library, and answers. `tests/` exercises the library on concrete values.
