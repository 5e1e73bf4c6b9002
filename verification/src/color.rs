//! Colors: the palette the renderer paints with, the named presets, and how a terminal cell's color
//! becomes red, green and blue.

use vstd::prelude::*;

use crate::paint::Rgb;
use crate::text::{ascii_lower, ascii_lowered, copy_text, same_text, trim, trimmed};

verus! {

/// The built-in dark palette: foreground, background, selection, cursor and copy-mode cursor.
pub const TOKYO_NIGHT: [(u8, u8, u8); 5] = [
    (0xc0, 0xca, 0xf5),
    (0x1a, 0x1b, 0x26),
    (0x33, 0x46, 0x7c),
    (0xc0, 0xca, 0xf5),
    (0x9e, 0xce, 0x6a),
];

/// The built-in dark palette: the sixteen ANSI colors.
pub const TOKYO_NIGHT_ANSI: [(u8, u8, u8); 16] = [
    (0x15, 0x16, 0x1e),
    (0xf7, 0x76, 0x8e),
    (0x9e, 0xce, 0x6a),
    (0xe0, 0xaf, 0x68),
    (0x7a, 0xa2, 0xf7),
    (0xbb, 0x9a, 0xf7),
    (0x7d, 0xcf, 0xff),
    (0xa9, 0xb1, 0xd6),
    (0x41, 0x48, 0x68),
    (0xff, 0x7a, 0x93),
    (0xb9, 0xf2, 0x7c),
    (0xff, 0x9e, 0x64),
    (0x7d, 0xa6, 0xff),
    (0xbb, 0x9a, 0xf7),
    (0x2a, 0xc3, 0xde),
    (0xc0, 0xca, 0xf5),
];

/// `gruvbox-dark`: foreground, background, selection, cursor and copy-mode cursor.
pub const GRUVBOX_DARK: [(u8, u8, u8); 5] = [
    (0xeb, 0xdb, 0xb2),
    (0x28, 0x28, 0x28),
    (0x50, 0x49, 0x45),
    (0xeb, 0xdb, 0xb2),
    (0xb8, 0xbb, 0x26),
];

/// `gruvbox-dark`: the sixteen ANSI colors.
pub const GRUVBOX_DARK_ANSI: [(u8, u8, u8); 16] = [
    (0x28, 0x28, 0x28),
    (0xcc, 0x24, 0x1d),
    (0x98, 0x97, 0x1a),
    (0xd7, 0x99, 0x21),
    (0x45, 0x85, 0x88),
    (0xb1, 0x62, 0x86),
    (0x68, 0x9d, 0x6a),
    (0xa8, 0x99, 0x84),
    (0x92, 0x83, 0x74),
    (0xfb, 0x49, 0x34),
    (0xb8, 0xbb, 0x26),
    (0xfa, 0xbd, 0x2f),
    (0x83, 0xa5, 0x98),
    (0xd3, 0x86, 0x9b),
    (0x8e, 0xc0, 0x7c),
    (0xeb, 0xdb, 0xb2),
];

/// `solarized-dark`: foreground, background, selection, cursor and copy-mode cursor.
pub const SOLARIZED_DARK: [(u8, u8, u8); 5] = [
    (0x83, 0x94, 0x96),
    (0x00, 0x2b, 0x36),
    (0x07, 0x36, 0x42),
    (0x83, 0x94, 0x96),
    (0x2a, 0xa1, 0x98),
];

/// `solarized-dark`: the sixteen ANSI colors.
pub const SOLARIZED_DARK_ANSI: [(u8, u8, u8); 16] = [
    (0x07, 0x36, 0x42),
    (0xdc, 0x32, 0x2f),
    (0x85, 0x99, 0x00),
    (0xb5, 0x89, 0x00),
    (0x26, 0x8b, 0xd2),
    (0xd3, 0x36, 0x82),
    (0x2a, 0xa1, 0x98),
    (0xee, 0xe8, 0xd5),
    (0x00, 0x2b, 0x36),
    (0xcb, 0x4b, 0x16),
    (0x58, 0x6e, 0x75),
    (0x65, 0x7b, 0x83),
    (0x83, 0x94, 0x96),
    (0x6c, 0x71, 0xc4),
    (0x93, 0xa1, 0xa1),
    (0xfd, 0xf6, 0xe3),
];

/// `nord`: foreground, background, selection, cursor and copy-mode cursor.
pub const NORD: [(u8, u8, u8); 5] = [
    (0xd8, 0xde, 0xe9),
    (0x2e, 0x34, 0x40),
    (0x43, 0x48, 0x98),
    (0xd8, 0xde, 0xe9),
    (0x88, 0xc0, 0xd0),
];

/// `nord`: the sixteen ANSI colors.
pub const NORD_ANSI: [(u8, u8, u8); 16] = [
    (0x3b, 0x42, 0x52),
    (0xbf, 0x61, 0x6a),
    (0xa3, 0xbe, 0x8c),
    (0xeb, 0xcb, 0x8b),
    (0x81, 0xa1, 0xc1),
    (0xb4, 0x8e, 0xad),
    (0x88, 0xc0, 0xd0),
    (0xe5, 0xe9, 0xf0),
    (0x4c, 0x56, 0x6a),
    (0xbf, 0x61, 0x6a),
    (0xa3, 0xbe, 0x8c),
    (0xeb, 0xcb, 0x8b),
    (0x81, 0xa1, 0xc1),
    (0xb4, 0x8e, 0xad),
    (0x8f, 0xbc, 0xbb),
    (0xec, 0xef, 0xf4),
];

/// `dracula`: foreground, background, selection, cursor and copy-mode cursor.
pub const DRACULA: [(u8, u8, u8); 5] = [
    (0xf8, 0xf8, 0xf2),
    (0x28, 0x2a, 0x36),
    (0x44, 0x47, 0x5a),
    (0xf8, 0xf8, 0xf2),
    (0x50, 0xfa, 0x7b),
];

/// `dracula`: the sixteen ANSI colors.
pub const DRACULA_ANSI: [(u8, u8, u8); 16] = [
    (0x21, 0x22, 0x2c),
    (0xff, 0x55, 0x55),
    (0x50, 0xfa, 0x7b),
    (0xf1, 0xfa, 0x8c),
    (0xbd, 0x93, 0xf9),
    (0xff, 0x79, 0xc6),
    (0x8b, 0xe9, 0xfd),
    (0xf8, 0xf8, 0xf2),
    (0x62, 0x72, 0xa4),
    (0xff, 0x6e, 0x6e),
    (0x69, 0xff, 0x94),
    (0xff, 0xff, 0xa5),
    (0xd6, 0xac, 0xff),
    (0xff, 0x92, 0xdf),
    (0xa4, 0xff, 0xff),
    (0xff, 0xff, 0xff),
];

/// `github-dark`: foreground, background, selection, cursor and copy-mode cursor.
pub const GITHUB_DARK: [(u8, u8, u8); 5] = [
    (0xc9, 0xd1, 0xd9),
    (0x0d, 0x11, 0x17),
    (0x1f, 0x6f, 0xeb),
    (0xc9, 0xd1, 0xd9),
    (0x3f, 0xb9, 0x50),
];

/// `github-dark`: the sixteen ANSI colors.
pub const GITHUB_DARK_ANSI: [(u8, u8, u8); 16] = [
    (0x48, 0x4f, 0x58),
    (0xff, 0x7b, 0x72),
    (0x3f, 0xb9, 0x50),
    (0xd2, 0x99, 0x22),
    (0x58, 0xa6, 0xff),
    (0xbc, 0x8c, 0xff),
    (0x39, 0xc5, 0xcf),
    (0xb1, 0xba, 0xc4),
    (0x6e, 0x76, 0x81),
    (0xff, 0xa1, 0x98),
    (0x56, 0xd3, 0x64),
    (0xe3, 0xb3, 0x41),
    (0x79, 0xc0, 0xff),
    (0xd2, 0xa8, 0xff),
    (0x56, 0xd4, 0xdd),
    (0xff, 0xff, 0xff),
];

/// The core colors and the ANSI colors of a preset, by its name in small letters. Any other name
/// means the built-in palette.
pub open spec fn palette(name: Seq<char>) -> ([Rgb; 5], [Rgb; 16]) {
    if name == "gruvbox-dark"@ {
        (GRUVBOX_DARK, GRUVBOX_DARK_ANSI)
    } else if name == "solarized-dark"@ {
        (SOLARIZED_DARK, SOLARIZED_DARK_ANSI)
    } else if name == "nord"@ {
        (NORD, NORD_ANSI)
    } else if name == "dracula"@ {
        (DRACULA, DRACULA_ANSI)
    } else if name == "github-dark"@ {
        (GITHUB_DARK, GITHUB_DARK_ANSI)
    } else {
        (TOKYO_NIGHT, TOKYO_NIGHT_ANSI)
    }
}

/// A tint for the tabs of one engine.
#[derive(Debug, PartialEq, Eq)]
pub struct Accent {
    pub engine: String,
    pub color: Rgb,
}

/// The accents as pairs of engine and color.
pub open spec fn accents_of(v: Seq<Accent>) -> Seq<(Seq<char>, Rgb)> {
    v.map_values(|a: Accent| (a.engine@, a.color))
}

/// The palette the renderer paints with.
#[derive(Debug, PartialEq, Eq)]
pub struct Colors {
    /// Normal text.
    pub fg: Rgb,
    /// Behind normal text.
    pub bg: Rgb,
    /// Underline and beam cursor.
    pub cursor: Rgb,
    /// Behind selected text.
    pub selection: Rgb,
    /// The copy-mode cursor block.
    pub copy_cursor: Rgb,
    /// The sixteen ANSI colors.
    pub ansi: [Rgb; 16],
    /// Per-engine tints; an engine without one keeps its brand color.
    pub accents: Vec<Accent>,
}

impl Colors {
    /// Whether the palette is made of these core colors and ANSI colors, with no accents.
    pub open spec fn made_of(&self, core: [Rgb; 5], ansi: [Rgb; 16]) -> bool {
        &&& self.fg == core@[0]
        &&& self.bg == core@[1]
        &&& self.selection == core@[2]
        &&& self.cursor == core@[3]
        &&& self.copy_cursor == core@[4]
        &&& self.ansi@ == ansi@
        &&& self.accents@.len() == 0
    }
}

/// A palette from its core colors and its ANSI colors.
fn pal(core: [Rgb; 5], ansi: [Rgb; 16]) -> (r: Colors)
    ensures
        r.made_of(core, ansi),
{
    Colors {
        fg: core[0],
        bg: core[1],
        selection: core[2],
        cursor: core[3],
        copy_cursor: core[4],
        ansi,
        accents: Vec::new(),
    }
}

impl Default for Colors {
    /// The built-in palette.
    fn default() -> (r: Self)
        ensures
            r.made_of(TOKYO_NIGHT, TOKYO_NIGHT_ANSI),
    {
        pal(TOKYO_NIGHT, TOKYO_NIGHT_ANSI)
    }
}

/// What a configuration may say about colors. What it leaves open comes from the preset.
#[derive(Debug, PartialEq, Eq)]
pub struct Theme {
    pub preset: Option<String>,
    pub foreground: Option<[u8; 3]>,
    pub background: Option<[u8; 3]>,
    pub cursor: Option<[u8; 3]>,
    pub selection: Option<[u8; 3]>,
    pub copy_cursor: Option<[u8; 3]>,
    pub ansi: Option<[Option<[u8; 3]>; 16]>,
    pub accents: Vec<Accent>,
}

impl Default for Theme {
    /// A theme that leaves everything open.
    fn default() -> (r: Self)
        ensures
            r.preset is None,
            r.foreground is None,
            r.background is None,
            r.cursor is None,
            r.selection is None,
            r.copy_cursor is None,
            r.ansi is None,
            r.accents@.len() == 0,
    {
        Theme {
            preset: None,
            foreground: None,
            background: None,
            cursor: None,
            selection: None,
            copy_cursor: None,
            ansi: None,
            accents: Vec::new(),
        }
    }
}

/// An override, or what stands without it.
pub open spec fn overridden(v: Option<[u8; 3]>, base: Rgb) -> Rgb {
    match v {
        Some(c) => (c@[0], c@[1], c@[2]),
        None => base,
    }
}

fn pick(v: &Option<[u8; 3]>, base: Rgb) -> (r: Rgb)
    ensures
        r == overridden(*v, base),
{
    match v {
        Some(c) => (c[0], c[1], c[2]),
        None => base,
    }
}

impl Theme {
    /// The preset that the theme builds on.
    pub open spec fn base(&self) -> ([Rgb; 5], [Rgb; 16]) {
        match self.preset {
            Some(name) => palette(ascii_lowered(trimmed(name@))),
            None => (TOKYO_NIGHT, TOKYO_NIGHT_ANSI),
        }
    }

    /// The `i`th ANSI color under the theme.
    pub open spec fn ansi_color(&self, i: int) -> Rgb {
        match self.ansi {
            Some(a) => overridden(a@[i], self.base().1@[i]),
            None => self.base().1@[i],
        }
    }
}

impl Colors {
    /// The preset of that name, whatever its case and the space around it; an unknown or blank name
    /// means the built-in palette.
    pub fn preset(name: &str) -> (r: Colors)
        ensures
            r.made_of(
                palette(ascii_lowered(trimmed(name@))).0,
                palette(ascii_lowered(trimmed(name@))).1,
            ),
    {
        let bare = trim(name);
        let low = ascii_lower(bare.as_str());
        let n = low.as_str();
        if same_text(n, "gruvbox-dark") {
            pal(GRUVBOX_DARK, GRUVBOX_DARK_ANSI)
        } else if same_text(n, "solarized-dark") {
            pal(SOLARIZED_DARK, SOLARIZED_DARK_ANSI)
        } else if same_text(n, "nord") {
            pal(NORD, NORD_ANSI)
        } else if same_text(n, "dracula") {
            pal(DRACULA, DRACULA_ANSI)
        } else if same_text(n, "github-dark") {
            pal(GITHUB_DARK, GITHUB_DARK_ANSI)
        } else {
            Colors::default()
        }
    }

    /// The palette a theme asks for: each color it names, and the preset's for the rest.
    pub fn from(t: &Theme) -> (r: Colors)
        ensures
            r.fg == overridden(t.foreground, t.base().0@[0]),
            r.bg == overridden(t.background, t.base().0@[1]),
            r.selection == overridden(t.selection, t.base().0@[2]),
            r.cursor == overridden(t.cursor, t.base().0@[3]),
            r.copy_cursor == overridden(t.copy_cursor, t.base().0@[4]),
            forall|i: int| 0 <= i < 16 ==> r.ansi@[i] == t.ansi_color(i),
            accents_of(r.accents@) == accents_of(t.accents@),
    {
        let base = match &t.preset {
            Some(name) => Colors::preset(name.as_str()),
            None => Colors::default(),
        };
        let mut ansi = base.ansi;
        if let Some(over) = &t.ansi {
            let mut i: usize = 0;
            while i < 16
                invariant
                    i <= 16,
                    t.ansi == Some(*over),
                    base.ansi@ == t.base().1@,
                    forall|k: int| 0 <= k < i ==> ansi@[k] == t.ansi_color(k),
                    forall|k: int| i <= k < 16 ==> ansi@[k] == base.ansi@[k],
                decreases 16 - i,
            {
                ansi[i] = pick(&over[i], base.ansi[i]);
                i = i + 1;
            }
        }
        let mut accents: Vec<Accent> = Vec::new();
        let mut i: usize = 0;
        while i < t.accents.len()
            invariant
                i <= t.accents@.len(),
                accents_of(accents@) == accents_of(t.accents@).take(i as int),
            decreases t.accents@.len() - i,
        {
            let ghost had = accents_of(accents@);
            accents.push(
                Accent {
                    engine: copy_text(t.accents[i].engine.as_str()),
                    color: t.accents[i].color,
                },
            );
            proof {
                assert(accents_of(accents@) =~= had.push(accents_of(t.accents@)[i as int]));
                assert(accents_of(accents@) =~= accents_of(t.accents@).take(i + 1));
            }
            i = i + 1;
        }
        Colors {
            fg: pick(&t.foreground, base.fg),
            bg: pick(&t.background, base.bg),
            cursor: pick(&t.cursor, base.cursor),
            selection: pick(&t.selection, base.selection),
            copy_cursor: pick(&t.copy_cursor, base.copy_cursor),
            ansi,
            accents,
        }
    }
}

/// A theme that leaves everything open gives the built-in palette.
pub proof fn law_empty_theme_is_built_in(t: Theme)
    requires
        t.preset is None,
        t.foreground is None,
        t.background is None,
        t.ansi is None,
    ensures
        overridden(t.foreground, t.base().0@[0]) == TOKYO_NIGHT@[0],
        overridden(t.background, t.base().0@[1]) == TOKYO_NIGHT@[1],
        forall|i: int| 0 <= i < 16 ==> t.ansi_color(i) == TOKYO_NIGHT_ANSI@[i],
{
}

/// A color that a theme names wins over the preset, whatever the preset is.
pub proof fn law_field_wins_over_preset(t: Theme, c: [u8; 3])
    requires
        t.background == Some(c),
    ensures
        overridden(t.background, t.base().0@[1]) == (c@[0], c@[1], c@[2]),
{
}

/// A cell color in the form the renderer works with.
#[derive(Clone, Copy, Debug, PartialEq, Eq, Structural)]
pub enum PaletteColor {
    Spec { r: u8, g: u8, b: u8 },
    Indexed(u8),
    /// One of the ANSI colors: the plain eight, or their bright forms.
    Named { bright: bool, index: u8 },
}

impl Default for PaletteColor {
    fn default() -> (r: Self)
        ensures
            r == (PaletteColor::Spec { r: 0, g: 0, b: 0 }),
    {
        PaletteColor::Spec { r: 0, g: 0, b: 0 }
    }
}

/// One step of the 6 by 6 by 6 color cube.
pub open spec fn ramp(v: int) -> int {
    if v == 0 {
        0
    } else {
        55 + v * 40
    }
}

/// The ANSI color at an index; an index past the last means the last.
pub open spec fn ansi_at(ansi: Seq<Rgb>, i: int) -> Rgb {
    ansi[if i < 15 {
        i
    } else {
        15
    }]
}

/// The xterm palette: sixteen ANSI colors, the color cube, then twenty-four shades of grey.
pub open spec fn xterm(i: int, ansi: Seq<Rgb>) -> Rgb {
    if i < 16 {
        ansi_at(ansi, i)
    } else if i < 232 {
        let n = i - 16;
        (ramp(n / 36) as u8, ramp((n / 6) % 6) as u8, ramp(n % 6) as u8)
    } else {
        let g = (8 + (i - 232) * 10) as u8;
        (g, g, g)
    }
}

impl PaletteColor {
    /// The color under a palette of ANSI colors.
    pub open spec fn rgb(self, ansi: Seq<Rgb>) -> Rgb {
        match self {
            PaletteColor::Spec { r, g, b } => (r, g, b),
            PaletteColor::Indexed(i) => xterm(i as int, ansi),
            PaletteColor::Named { bright, index } => ansi_at(
                ansi,
                if bright {
                    index + 8
                } else {
                    index as int
                },
            ),
        }
    }

    /// The concrete color under the palette.
    pub fn to_rgb(&self, colors: &Colors) -> (c: Rgb)
        ensures
            c == self.rgb(colors.ansi@),
    {
        match *self {
            PaletteColor::Spec { r, g, b } => (r, g, b),
            PaletteColor::Indexed(i) => color256(i, colors),
            PaletteColor::Named { bright, index } => {
                let i: usize = if bright {
                    index as usize + 8
                } else {
                    index as usize
                };
                colors.ansi[if i < 15 {
                    i
                } else {
                    15
                }]
            },
        }
    }
}

fn ramp_level(v: u8) -> (r: u8)
    requires
        v < 6,
    ensures
        r == ramp(v as int),
{
    if v == 0 {
        0
    } else {
        55 + v * 40
    }
}

/// The color with an index of the xterm palette.
pub fn color256(i: u8, colors: &Colors) -> (c: Rgb)
    ensures
        c == xterm(i as int, colors.ansi@),
{
    if i < 16 {
        return colors.ansi[i as usize];
    }
    if i < 232 {
        let n: u8 = i - 16;
        (ramp_level(n / 36), ramp_level((n / 6) % 6), ramp_level(n % 6))
    } else {
        let g: u8 = 8 + (i - 232) * 10;
        (g, g, g)
    }
}

/// The colors a terminal program can name.
#[derive(Clone, Copy, Debug, PartialEq, Eq, Structural)]
pub enum NamedColor {
    Black,
    Red,
    Green,
    Yellow,
    Blue,
    Magenta,
    Cyan,
    White,
    BrightBlack,
    BrightRed,
    BrightGreen,
    BrightYellow,
    BrightBlue,
    BrightMagenta,
    BrightCyan,
    BrightWhite,
    Foreground,
    Background,
    Cursor,
    DimBlack,
    DimRed,
    DimGreen,
    DimYellow,
    DimBlue,
    DimMagenta,
    DimCyan,
    DimWhite,
    BrightForeground,
    DimForeground,
}

/// The color of a terminal cell.
#[derive(Clone, Copy, Debug, PartialEq, Eq, Structural)]
pub enum CellColor {
    Named(NamedColor),
    Indexed(u8),
    Spec { r: u8, g: u8, b: u8 },
}

/// The number of a named color: the ANSI colors first, then the special ones.
pub open spec fn named_index(n: NamedColor) -> u64 {
    match n {
        NamedColor::Black => 0,
        NamedColor::Red => 1,
        NamedColor::Green => 2,
        NamedColor::Yellow => 3,
        NamedColor::Blue => 4,
        NamedColor::Magenta => 5,
        NamedColor::Cyan => 6,
        NamedColor::White => 7,
        NamedColor::BrightBlack => 8,
        NamedColor::BrightRed => 9,
        NamedColor::BrightGreen => 10,
        NamedColor::BrightYellow => 11,
        NamedColor::BrightBlue => 12,
        NamedColor::BrightMagenta => 13,
        NamedColor::BrightCyan => 14,
        NamedColor::BrightWhite => 15,
        NamedColor::Foreground => 16,
        NamedColor::Background => 17,
        NamedColor::Cursor => 18,
        NamedColor::DimBlack => 19,
        NamedColor::DimRed => 20,
        NamedColor::DimGreen => 21,
        NamedColor::DimYellow => 22,
        NamedColor::DimBlue => 23,
        NamedColor::DimMagenta => 24,
        NamedColor::DimCyan => 25,
        NamedColor::DimWhite => 26,
        NamedColor::BrightForeground => 27,
        NamedColor::DimForeground => 28,
    }
}

/// The number of a named color.
pub fn named_key(n: NamedColor) -> (k: u64)
    ensures
        k == named_index(n),
{
    match n {
        NamedColor::Black => 0,
        NamedColor::Red => 1,
        NamedColor::Green => 2,
        NamedColor::Yellow => 3,
        NamedColor::Blue => 4,
        NamedColor::Magenta => 5,
        NamedColor::Cyan => 6,
        NamedColor::White => 7,
        NamedColor::BrightBlack => 8,
        NamedColor::BrightRed => 9,
        NamedColor::BrightGreen => 10,
        NamedColor::BrightYellow => 11,
        NamedColor::BrightBlue => 12,
        NamedColor::BrightMagenta => 13,
        NamedColor::BrightCyan => 14,
        NamedColor::BrightWhite => 15,
        NamedColor::Foreground => 16,
        NamedColor::Background => 17,
        NamedColor::Cursor => 18,
        NamedColor::DimBlack => 19,
        NamedColor::DimRed => 20,
        NamedColor::DimGreen => 21,
        NamedColor::DimYellow => 22,
        NamedColor::DimBlue => 23,
        NamedColor::DimMagenta => 24,
        NamedColor::DimCyan => 25,
        NamedColor::DimWhite => 26,
        NamedColor::BrightForeground => 27,
        NamedColor::DimForeground => 28,
    }
}

/// A color as plain red, green and blue.
pub open spec fn exact(c: Rgb) -> PaletteColor {
    PaletteColor::Spec { r: c.0, g: c.1, b: c.2 }
}

/// What a cell's color means under a palette. The sixteen ANSI colors stay indices into it; the
/// special names fold to its background or else its foreground.
pub open spec fn resolved(c: CellColor, fg: Rgb, bg: Rgb) -> PaletteColor {
    match c {
        CellColor::Named(NamedColor::Background) => exact(bg),
        CellColor::Named(n) => if named_index(n) < 16 {
            PaletteColor::Named { bright: named_index(n) >= 8, index: (named_index(n) % 8) as u8 }
        } else {
            exact(fg)
        },
        CellColor::Indexed(i) => PaletteColor::Indexed(i),
        CellColor::Spec { r, g, b } => PaletteColor::Spec { r, g, b },
    }
}

/// What a cell's color means under the palette.
pub fn cell_color(c: &CellColor, colors: &Colors) -> (r: PaletteColor)
    ensures
        r == resolved(*c, colors.fg, colors.bg),
{
    match *c {
        CellColor::Named(NamedColor::Background) => PaletteColor::Spec {
            r: colors.bg.0,
            g: colors.bg.1,
            b: colors.bg.2,
        },
        CellColor::Named(n) => {
            let k: u64 = named_key(n);
            if k < 16 {
                PaletteColor::Named { bright: k >= 8, index: (k % 8) as u8 }
            } else {
                PaletteColor::Spec { r: colors.fg.0, g: colors.fg.1, b: colors.fg.2 }
            }
        },
        CellColor::Indexed(i) => PaletteColor::Indexed(i),
        CellColor::Spec { r, g, b } => PaletteColor::Spec { r, g, b },
    }
}

/// A number for a cell color, the same only for the same color.
pub open spec fn color_number(c: CellColor) -> u64 {
    match c {
        CellColor::Named(n) => (0x1000_0000 + named_index(n)) as u64,
        CellColor::Indexed(i) => (0x2000_0000 + i) as u64,
        CellColor::Spec { r, g, b } => (0x3000_0000 + r * 0x1_0000 + g * 0x100 + b) as u64,
    }
}

/// The number of a cell color; see [`color_number`].
pub fn color_key(c: &CellColor) -> (k: u64)
    ensures
        k == color_number(*c),
{
    match *c {
        CellColor::Named(n) => 0x1000_0000 + named_key(n),
        CellColor::Indexed(i) => 0x2000_0000 + i as u64,
        CellColor::Spec { r, g, b } => 0x3000_0000 + r as u64 * 0x1_0000 + g as u64 * 0x100
            + b as u64,
    }
}

/// Two cell colors with the same number are the same color, so that any change of color shows in
/// what is computed from the number.
pub proof fn law_color_number_tells_colors_apart(a: CellColor, b: CellColor)
    requires
        color_number(a) == color_number(b),
    ensures
        a == b,
{
    match (a, b) {
        (CellColor::Named(m), CellColor::Named(n)) => {
            assert(named_index(m) == named_index(n));
        },
        _ => {},
    }
}

} // verus!
