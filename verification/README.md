# ue

A small terminal text editor whose editing logic is a library verified with
Verus.

- `src/` is the library. Every function in it is verified: text
  measurement and wrapping, cursor movement, selection, editing with
  undo and redo, search and filter mode, the find and go-to-line prompts,
  the menu bar and its dropdown layout, the file selector page, and the
  order in which the editor's keys are dispatched. Calls into outside
  crates (regex, unicode-width) and into std where vstd gives no
  specification are made through small trusted wrappers whose contracts
  are stated in their doc comments.
- `tests/` runs the library on concrete inputs.
- `app/` is the terminal program around the library: command line,
  terminal drawing and input, files and the clipboard.
