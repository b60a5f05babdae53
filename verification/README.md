# thirdpass-py-lib

The Python side of Thirdpass: it discovers the dependencies of Python packages and
files, and finds package metadata in the PyPI registry.

- `src/` is a verified Verus library. It checks resolver arguments, plans the calls
  of pip, reads pip's report and `Pipfile.lock`, orders versions,
  selects archives, and decides where to look for dependency files. Each public function
  states in its contract what it returns, and public proof functions state the laws
  that hold of several of them.
- `app/` is the program around it: processes, files, HTTP and the Thirdpass
  extension interface.
- `tests/` runs the library on concrete values.

What the library takes on trust are the contracts of the functions and types that
it uses from `serde_json`, `semver`, `handlebars`, `url`, `thirdpass-core` and std.
Each is declared next to the code that needs it, with a comment that says what it
claims.
