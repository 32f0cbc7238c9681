# alas-launcher

A launcher for AzurLaneAutoScript. It brings the repository up to date, installs what it needs,
starts the web interface and shows it in a window. It also keeps itself up to date.

- `src/` is the library: what the launcher decides and computes, each function with its contract
  and its proof in Verus. It reads the clock and the machine's language, and performs no other
  input or output.
- `app/` is the program around it: windows, requests, files and processes. It asks the library what
  to do next, does it, and hands back what came of it.
- `tests/` runs the library.

The texts in the user's language are read from `locales/`, the pictures from `bg/` and `icons/`.
