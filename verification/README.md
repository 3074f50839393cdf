# command_lines

A small toolkit, verified with Verus:

- `html`: an HTML node tree (elements with attributes and ordered children,
  text nodes) rendered to markup, and the escaping helpers it uses.
- `elements`: a plain element tree whose tag names are kept in upper case.
- `editor`: a terminal text editor model. It is handed the terminal's sizes
  and key presses and answers with terminal commands.
- `progress_bar`: the state of a progress bar and its `mm:ss` clock text.
- `server`, `service`, `tools`: the decisions of a static-file HTTP server:
  which files answer a path, the directory listing page, the response headers.

`app/` holds the program around the library: the HTTP server loop, the
terminal loops of the editor and the progress bar, and file helpers.
