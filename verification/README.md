# yinx

The core of a terminal HTTP client with workflow support, written in Verus:
each function states what it does in `requires`/`ensures` clauses and Verus
proves it.

- `src/` is the verified library: workflow graphs (validation, topological
  order, runs and retries), variables and `${..}`/`{{..}}` interpolation,
  edge conditions, key bindings and the modal input handler, text buffers,
  themes, and the state machines of the panes (request, workflow, logs,
  response, sidebar, environment editor, settings, command palette, virtual
  scrolling), the shell's key dispatch as a step from state and key to
  state and actions, the external edits of a request (YAML for headers and
  forms), and what each pane draws (rows, titles, forms) with the JSON
  highlighter of the response pane.
  `src/laws.rs` holds properties that span several functions.
- `tests/` runs the library on concrete values.
- `app/` is the program around it: command line, terminal, files, the
  external editor, the loop that performs the shell's actions, drawing with
  ratatui from what the library computes, and the computations done in
  floating point.
