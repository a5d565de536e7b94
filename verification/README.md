# madder_core

The verified core of the madder video editor.

- `src/` is the library, checked by Verus: the repositories of components
  and effects, the project's layers, the request router of the editor's API
  and the handlers behind it, JSON pointers and patch operations, the
  time model, the order in which a frame's components are drawn, the
  frame schedule of a video being written, and the types of the project
  file and of the query API.
- `tests/` runs the library on concrete values.
- `app/` is the program around it: it serves the API over a WebSocket or
  applies a file of operations to a project, reads and writes JSON and
  YAML, and holds the floating-point effect curves.
