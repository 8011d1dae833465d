# m-guitar

A music notation viewer and editor for guitar players: it reads MusicXML
scores, lays them out on A4 pages, plays them back through an SFZ sampler,
shows a theme map of the song's sections and an interactive fingerboard.

## Layout

- `src/` — the library, verified with Verus:
  - `notation/` — the score model (pitches, notes, measures, staves,
    directions, themes) with glyph and naming rules;
  - `musicxml/` and `xml.rs` — reading a partwise MusicXML document into a
    `Score`; the XML text itself is parsed by `roxmltree`;
  - `render/` — the decisions behind the drawing: beam groups, page packing,
    staff positions of ledger lines, key signatures and stems, the spans of
    ties, slurs, glissandos and tuplets, glyph choices and colours;
  - `sections.rs` — song sections from rehearsal marks, chord progressions,
    the theme map;
  - `audio.rs` — which notes sound, with which velocity and for what share
    of their length;
  - `editing.rs` — note entry from the keyboard;
  - `fingerboard.rs` — fret arithmetic and the fingerboard selection;
  - `i18n.rs`, `text.rs` — Spanish/English texts and text helpers;
  - `float_text.rs` — which texts `f32::from_str` reads as a number above
    zero (page sizes decide whether credits can be placed).
- `app/` — the program: the egui window, drawing in points, the audio
  output (cpal and the sfizz sampler), files and session.
- `tests/` — tests of the library.
