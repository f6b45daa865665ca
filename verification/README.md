# bukurs

The logic of the `bukurs` bookmark manager's command line, written in Verus:
each public function states in its contract what it returns, and Verus proves
it.

- `src/` is the verified library: the command-line grammar (`argparse`, `cli`),
  the commands as data and their messages (`commands`), the interactive shell's
  reading of a line (`shell`), the tag formats and the `--tag` edit language
  (`tags`, `tag_ops`), the editable text form of a bookmark (`editor`), output
  formats and colouring (`format`, `colorize`), and the plugins under
  `src/plugins/`. Calls into `chrono`, `regex`, `reqwest`, `ring`, `base64`,
  `qrcode` and `owo-colors` stand behind small trusted functions whose
  contracts are stated in their doc comments.
- `src/laws.rs` holds the properties that span several functions, as proof
  functions.
- `tests/` runs the library on concrete values.
- `app/` is the program around it: reading arguments and lines, launching the
  editor, printing.

Verify with Verus on `src/lib.rs`; the tests and the program build with Cargo.
