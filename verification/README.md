# dewey

A command-line client for open ebook libraries. Each library is a separate
*module* program that dewey runs and speaks to over a one-line JSON-RPC 2.0
exchange; dewey searches, lists, shows and downloads books through it.

The crate is written in Verus. `src/` is the verified library:

- `book` — the normalized book record and the module responses.
- `cli` — the verbs of the command line.
- `config` — configuration checks, `~` expansion, the config and modules
  directories.
- `discovery` — manifest validation, the order modules are found in, and
  module resolution.
- `download` — filename sanitizing and naming, the destination guard, and
  the retry decisions of a download.
- `module` — the module host: command resolution, request framing
  (`module::jsonrpc`) and the interpretation of a module's reply.
- `output` — the text rendering of results (tables, book details,
  categories, counts).
- `session` — what a command comes to: the module and capability checks,
  the request parameters, download planning and the module list.
- `text`, `paths`, `errors` — strings, decimal numbers, paths and the
  error type with its exit codes.

`app/` is the program around it: argument parsing (clap), reading files and
the environment, running module processes with a timeout, and HTTP
downloads with a progress bar (ureq, indicatif). `tests/` exercises the
library.
