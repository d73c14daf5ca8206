# rivet

A command-line and terminal client for HTTP requests saved as TOML files under
a project's `.rivet/collections` folder.

- `src/` is the verified library: where a request named `collection/name` is
  stored, the `{{ NAME }}` environment placeholders of a request, the tree of
  saved requests and its printed listing, the sidebar rows of the terminal
  interface and how keys change its state, the preparation of a request
  before it is sent, and what is shown of a response. `src/laws.rs` states
  properties that span several functions.
- `tests/` exercises the library on concrete values.
- `app/` is the program: command-line parsing, files, the HTTP client and
  the terminal drawing, each handing plain values to the library.
