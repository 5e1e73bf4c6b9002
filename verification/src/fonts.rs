//! Which font is used: the one that is configured, or one that is known to be there, and the italic
//! face beside it.

use ab_glyph::FontArc;
use vstd::prelude::*;
use vstd::string::*;

use crate::text::{copy_text, same_text};

verus! {

/// The face that the system comes with, and its italic.
pub const SYSTEM_MONO: &'static str = "/System/Library/Fonts/SFNSMono.ttf";

pub const SYSTEM_ITALIC: &'static str = "/System/Library/Fonts/SFNSMonoItalic.ttf";

/// The face to use where that one is not there.
pub const SECOND_MONO: &'static str = "/System/Library/Fonts/Monaco.ttf";

/// Whether the bytes of a file are a font that can be read.
pub uninterp spec fn is_font(data: Seq<u8>) -> bool;

/// `FontArc::try_from_vec` of the font library, of which only matters whether it succeeds. That is
/// a property of the bytes, and has a name here.
#[verifier::external_body]
fn reads_as_font(data: &Vec<u8>) -> (r: bool)
    ensures
        r == is_font(data@),
{
    FontArc::try_from_vec(data.clone()).is_ok()
}

/// The path of the font to use: the one of the configuration, else that of the environment unless
/// it is empty, else the system's own.
pub open spec fn chosen_path(config: Option<Seq<char>>, env: Option<Seq<char>>) -> Seq<char> {
    match config {
        Some(p) => p,
        None => match env {
            Some(p) => if p.len() > 0 {
                p
            } else {
                SYSTEM_MONO@
            },
            None => SYSTEM_MONO@,
        },
    }
}

/// The path of the font to use, given what the configuration and the environment say.
pub fn font_path(config: Option<&str>, env: Option<&str>) -> (r: String)
    ensures
        r@ == chosen_path(
            match config {
                Some(p) => Some(p@),
                None => None,
            },
            match env {
                Some(p) => Some(p@),
                None => None,
            },
        ),
{
    if let Some(p) = config {
        return copy_text(p);
    }
    if let Some(p) = env {
        if !p.is_empty() {
            return copy_text(p);
        }
    }
    copy_text(SYSTEM_MONO)
}

/// Which of three files is used: the first that is usable of the chosen one, the system's own and
/// the second best, where a file is not tried twice.
pub open spec fn first_usable(
    primary: Seq<char>,
    first: bool,
    system: bool,
    second: bool,
) -> Option<Seq<char>> {
    if first {
        Some(primary)
    } else if system && primary != SYSTEM_MONO@ {
        Some(SYSTEM_MONO@)
    } else if second && primary != SECOND_MONO@ {
        Some(SECOND_MONO@)
    } else {
        None
    }
}

/// Which of three files is used, given which of them are usable.
pub fn pick_usable(primary: &str, first: bool, system: bool, second: bool) -> (r: Option<String>)
    ensures
        match r {
            Some(p) => first_usable(primary@, first, system, second) == Some(p@),
            None => first_usable(primary@, first, system, second) is None,
        },
{
    if first {
        Some(copy_text(primary))
    } else if system && !same_text(primary, SYSTEM_MONO) {
        Some(copy_text(SYSTEM_MONO))
    } else if second && !same_text(primary, SECOND_MONO) {
        Some(copy_text(SECOND_MONO))
    } else {
        None
    }
}

/// Whether a file was read and is a font.
pub open spec fn usable(data: Option<Vec<u8>>) -> bool {
    match data {
        Some(d) => is_font(d@),
        None => false,
    }
}

/// Whether a file was read and is a font.
pub fn read_valid_font(data: &Option<Vec<u8>>) -> (r: bool)
    ensures
        r == usable(*data),
{
    match data {
        Some(d) => reads_as_font(d),
        None => false,
    }
}

/// The path of the font that is used, given what was read of the chosen one, the system's own and
/// the second best; nothing where none of them is a font.
pub fn usable_mono_font(
    primary: &str,
    first: &Option<Vec<u8>>,
    system: &Option<Vec<u8>>,
    second: &Option<Vec<u8>>,
) -> (r: Option<String>)
    ensures
        match r {
            Some(p) => first_usable(primary@, usable(*first), usable(*system), usable(*second))
                == Some(p@),
            None => first_usable(
                primary@,
                usable(*first),
                usable(*system),
                usable(*second),
            ) is None,
        },
{
    pick_usable(
        primary,
        read_valid_font(first),
        read_valid_font(system),
        read_valid_font(second),
    )
}

/// The end of a file name: a dot and what stands behind it, which may be nothing; or no dot at all.
pub open spec fn name_end(ext: Option<&str>) -> Seq<char> {
    match ext {
        Some(e) => "."@ + e@,
        None => ""@,
    }
}

/// The names that the italic face of a font may have: its directory, its name with a word behind
/// it, and its end.
pub open spec fn italic_name(dir: Seq<char>, stem: Seq<char>, end: Seq<char>, dash: bool) -> Seq<char> {
    dir + "/"@ + stem + (if dash {
        "-Italic"@
    } else {
        "Italic"@
    }) + end
}

/// A name that the italic face of a font may have, with a dash or without.
pub fn italic_sibling(dir: &str, stem: &str, ext: Option<&str>, dash: bool) -> (r: String)
    ensures
        r@ == italic_name(dir@, stem@, name_end(ext), dash),
{
    let mut s = copy_text(dir);
    s.append("/");
    s.append(stem);
    s.append(
        if dash {
            "-Italic"
        } else {
            "Italic"
        },
    );
    let end = match ext {
        Some(e) => copy_text(".").concat(e),
        None => copy_text(""),
    };
    s.append(end.as_str());
    s
}

/// The italic face of a font: the system's own has a fixed one; else the first of the two siblings
/// that is there.
pub fn italic_candidate(
    font: &str,
    dir: &str,
    stem: &str,
    ext: Option<&str>,
    dashed: bool,
    plain: bool,
) -> (r: Option<String>)
    ensures
        match r {
            Some(p) => p@ == if font@ == SYSTEM_MONO@ {
                SYSTEM_ITALIC@
            } else {
                italic_name(dir@, stem@, name_end(ext), dashed)
            },
            None => true,
        },
        r is Some == (font@ == SYSTEM_MONO@ || dashed || plain),
{
    if same_text(font, SYSTEM_MONO) {
        Some(copy_text(SYSTEM_ITALIC))
    } else if dashed {
        Some(italic_sibling(dir, stem, ext, true))
    } else if plain {
        Some(italic_sibling(dir, stem, ext, false))
    } else {
        None
    }
}

/// A font that is broken does not keep the window from opening: as long as the system's own is one,
/// some font is used.
pub proof fn law_some_font(primary: Seq<char>, first: bool, second: bool)
    requires
        primary != SYSTEM_MONO@,
    ensures
        first_usable(primary, first, true, second) is Some,
{
}

} // verus!
