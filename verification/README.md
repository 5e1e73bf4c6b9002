# harness_terminal

A native terminal window for a fleet of agent sessions, with its logic verified in Verus.

`src/` is the library. Everything that the window decides is there, with a contract over plain models:

- drawing: `paint`, `glyph`, `lettering`, `color`, `grid`, `canvas`, `strokes`, `frame`
- text and keys: `text`, `words`, `seqs`, `keys`, `fonts`
- sessions: `tabs`, `activity`, `notify`, `board`, `moves`, `windows`, `scroll`, `machines`, `triage`
- searching: `search`, `finding`, `copying`
- the window's state: `shell`, `input`, `typing`, `commands`, `lists`, `triaging`, `mouse`, `menu`,
  `geometry`, `cycle`, `opening`, `keeping`
- what is shown of it: `strip`, `status`, `prompts`, `rosters`, `details`, `overview`, `popups`

The functions named `law_` are properties of the library as a whole.

The state is a `Shell`. An event is handed to one of its methods; what has to happen outside is left as
a list of `Act`s in its board, which the window performs in order. `app/` is that window: winit,
softbuffer, the clipboard, font files and the terminal emulator. The sessions themselves are behind its
`Outside` trait.

Times are milliseconds since the window opened.
