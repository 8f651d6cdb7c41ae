# uncomment

Removes selected comments from Python and PowerShell sources and from the VBA
modules of Excel workbooks, and copies a source tree with the cleaned files.

- `src/` is the verified library: decoding of file bytes (UTF-16LE, UTF-8,
  Shift_JIS), the comment regexes and their application, the selection of VBA
  standard modules, and how each file of a tree is handled.
- `app/` is the command-line program: it reads the configuration, walks the
  directory, reads and writes files and runs the external VBA tool.
- `tests/` holds the tests of the library.
