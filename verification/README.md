# md_conv

A Markdown and Jupyter notebook converter to HTML and PDF, whose decisions are verified with
Verus.

- `src/` is the verified library: command-line checks (`cli`), configuration merging
  (`config`), errors and exit codes (`error`), Markdown and notebook processing with the table
  of contents (`parser`), the page template (`template`), CSS sanitization and path checks
  (`security`), the renderers, the PDF page setup, browser discovery, the browser pool ledger
  and the network-idle tracker (`renderer`), and the decisions of a run (`pipeline`).
  Outside crates (`lightningcss`, `pulldown-cmark`, `ammonia`, `syntect`, `handlebars`,
  `html-escape`, `slug`, `gray_matter`) are called through small trusted wrappers whose
  contracts name or state what they compute.
- `app/` is the program around it: argument parsing, file and network I/O, reading YAML and JSON
  into values, the headless browser, the clock, progress output and watch mode.
- `tests/` exercises the library from outside.
