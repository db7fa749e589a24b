# workplan

Reads Markdown planning notes (a single `.md` file or a directory tree of
them) into a tree of work packages, and draws that tree as a Graphviz graph.

- `src/` is the verified library: node rules (`node`), line patterns
  (`pattern`, matched with the `regex` crate), the reader (`parse`, `files`),
  the drawing (`dot`), output naming (`output`), and string and path helpers
  (`text`, `pathname`).
- `app/main.rs` is the program around it: it lists directories, reads files,
  adds up the floating-point costs, writes the `.dot` file and runs `dot`.
- `tests/` runs the library on concrete notes.
