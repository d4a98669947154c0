# ratgames

A small retro-game presentation toolkit: an 8-bit virtual screen composed
from pixel layers, integer-upscaled and letterboxed into a window, with
device-space overlays on top; pixel-art big text; arcade session rules
(lives, scoring, levels, high scores); and the configuration that tunes it all.

The library in `src/` is written in Verus: each public function carries a
`requires`/`ensures` contract over a mathematical model of its types, and the
laws the toolkit promises (a pop undoes a push, a colour's hex text reads back
as that colour, a finished run ignores further attempts, …) are proof functions
named `law_*`.

Layout:

- `src/` — the verified library: geometry, colour, sprites and surfaces,
  blitting and upscaling, big text, marquee and placard layers, the
  presentation compositor, tiles and rooms, the quiz and math-game session,
  arcade session rules, the screen stack's bookkeeping, the session screens'
  decision machines (prompts, timed cards, menus, text entry, the attract loop
  and the timed challenge), the high-score board's lines, and config values
  with their checks and command-line flags.
- `tests/` — behaviour tests of the library.
- `app/` — the binary and everything around the library that is I/O or
  floating point: reading TOML/JSON config and level files, font discovery and
  anti-aliased rasterisation (`fontdb`, `fontdue`), the input overlay, the
  text wave effect, room slides, boxed-screen dispatch, and the session
  screens that pair each decision machine with its layers and routing.
