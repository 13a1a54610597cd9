# carboxyl

A terminal web browser: the page is rendered by the Servo engine and drawn
into the terminal with quadrant block glyphs, with a navigation bar on the
top row and the page's text drawn as terminal glyphs over the pixels.

The library under `src/` holds the browser's logic with Verus contracts and
proofs:

- `color`, `browser_widget`: colour quantisation and the quadrant-glyph
  rasterisation of a pixel frame.
- `nav_widget`, `text`, `width`: the address bar's editing state machine over
  UTF-8 text.
- `renderer`, `gfx`, `layout`: the double-buffered cell renderer.
- `overlay`, `css`, `page_text`: placing page text on the cell grid, reading
  its CSS colours, and reading the text the page's extraction script reports.
- `keys`, `keyboard`, `raw_keys`, `input`: terminal keys and mouse events
  turned into the engine's events.
- `session`, `events`, `timing`, `url`, `cli`: the decisions of the main loop,
  engine notifications, frame pacing, and URL normalisation.

`app/` is the program around it: command-line parsing, terminal set-up, the
input, signal and engine threads, and drawing with ratatui. `tests/` holds
the tests of the library.
