# northbridge

A virtual braille display and keyboard for agents: it connects to BRLTTY via
BrlAPI, reads what the screen reader shows, and sends keyboard and mouse input
back.

- `src/` is the library, verified with Verus: the display geometry and key
  events (`display`, `keys`), the decisions taken on BrlAPI's answers
  (`bridge`), the command lines run for input and for bringing the screen up
  (`input`, `launch`), and the recovery of the displayed text from what BRLTTY
  renders to its terminal (`screen`, with `text` and `pattern`).
- `app/` does the I/O around it: the BrlAPI connection, the pseudo-terminal,
  and the processes.
- `tests/` runs the library on concrete inputs.
