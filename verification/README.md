# stickle

A terminal dashboard for a Structured Text project built with the Rusty
Compiler: it watches what the build needs (the compiler tool chain, the link
and run time libraries, the .NET SDK and test project, the sources) and runs
the build targets in order.

- `src/` is the library, verified with Verus: the checks and their verdicts,
  the environment snapshot (PATH, LIB, the Windows registry values and how
  they are expanded and compared), project discovery, the build sequence and
  the bookkeeping of a build's steps, the dashboard's selection and change
  history, text layout, the clipboard's base64 payload and fallback order,
  and the cache of program outputs.
- `app/` is the program around it: the terminal, the threads that scan and
  build, and everything that touches the file system, processes or the
  environment.
- `tests/` exercises the library on concrete values.
