# mtui

The logic of MTUI, a terminal player for YouTube Music, verified with
[Verus](https://github.com/verus-lang/verus).

- `src/` is the library. It holds the state of the program and everything that
  decides or computes: what a key does and what an answer changes (`app`), the
  page of the track that plays (`now_playing`), the engine of the player and the
  ranged requests behind it (`player`), the search for a stream (`resolver`), the
  pictures (`art`, `graphics`, `kitty`, `sixel`), the card on the Discord profile
  (`discord`), and the records that travel to the console (`console`). Every
  function states what it returns or changes, and the laws that relate several
  functions stand beside them as proof functions.
- `app/` is the program around the library: the terminal, the audio device, the
  network, files and processes. It carries out what the library asks for and
  tells it what came of it.
- `tests/` runs the library on concrete values.

Time is counted in nanoseconds or milliseconds, as each field says, and volume in
percent, so nothing in the library is a floating-point number.

The functions that Verus does not read are few: parsing a URL and writing out an
HTTP status (`reqwest`), the width of a symbol in a terminal (`unicode-width`),
and a handful from the standard library. Each says in its comment what is taken
on trust.
