# Pattern of Doom

A terminal game of number patterns with a global chat, backed by MongoDB.

- `src/` is the game's logic, verified with Verus: the pattern generator and
  its rules, the client state machine that reacts to key presses and chat
  changes, the sign-up dialogue, the account lookups over stored documents,
  the collection cache, the texts of the screen, and the reading of the
  language model's replies.
- `app/` is the program around it: the terminal, the database and HTTP calls,
  the serde copies of the data types, and the drawing of the screen.
- `tests/` runs the library on concrete values.
