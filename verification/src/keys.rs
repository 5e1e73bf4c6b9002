//! Keys and mouse buttons: what a program in the terminal receives for them, and which of them the
//! window keeps for itself.

use vstd::prelude::*;
use vstd::string::*;
use vstd::utf8::*;

use crate::text::{
    ascii_lower_char, chars_of, copy_text, dec, decimal, lower_char, same_text, with_char,
};

verus! {

/// The keys that have a name of their own.
#[derive(Clone, Copy, Debug, PartialEq, Eq, Structural)]
pub enum NamedKey {
    Enter,
    Escape,
    Backspace,
    Tab,
    Space,
    ArrowUp,
    ArrowDown,
    ArrowLeft,
    ArrowRight,
    PageUp,
    PageDown,
    Home,
    End,
    Delete,
    Insert,
    F1,
    F2,
    F3,
    F4,
    F5,
    F6,
    F7,
    F8,
    F9,
    F10,
    F11,
    F12,
    Other,
}

/// A key press: the text it types, or the key's name.
#[derive(Debug, PartialEq, Eq)]
pub enum Key {
    Character(String),
    Named(NamedKey),
    Other,
}

/// A key press as plain data.
#[verifier::ext_equal]
pub enum KeyView {
    Character(Seq<char>),
    Named(NamedKey),
    Other,
}

impl View for Key {
    type V = KeyView;

    open spec fn view(&self) -> KeyView {
        match self {
            Key::Character(s) => KeyView::Character(s@),
            Key::Named(n) => KeyView::Named(*n),
            Key::Other => KeyView::Other,
        }
    }
}

/// The modifier keys that are held.
#[derive(Clone, Copy, Debug, PartialEq, Eq, Structural)]
pub struct Mods {
    pub shift: bool,
    pub control: bool,
    pub alt: bool,
    /// The command key.
    pub logo: bool,
}

/// The letter a control byte stands for: 1 for a, up to 26 for z.
pub open spec fn control_byte(s: Seq<char>) -> Option<u8> {
    if s.len() == 0 {
        None
    } else {
        let l = ascii_lower_char(s[0]);
        if 'a' <= l && l <= 'z' {
            Some((l as u8 - 96) as u8)
        } else {
            None
        }
    }
}

/// The control byte of a typed letter, whatever its case; nothing for anything else.
pub fn ctrl_byte(c: &str) -> (r: Option<u8>)
    ensures
        r == control_byte(c@),
{
    let v = chars_of(c);
    if v.len() == 0 {
        return None;
    }
    let l = lower_char(v[0]);
    if 'a' <= l && l <= 'z' {
        Some(l as u8 - 96)
    } else {
        None
    }
}

/// The bytes a broadcast line is sent as: the line and a line break; nothing for an empty line.
pub open spec fn broadcast_line(q: Seq<char>) -> Seq<u8> {
    if q.len() == 0 {
        Seq::empty()
    } else {
        encode_utf8(q.push('\n'))
    }
}

/// The bytes a broadcast line is sent as. An empty line sends nothing.
pub fn broadcast_bytes(q: &str) -> (r: Vec<u8>)
    ensures
        r@ == broadcast_line(q@),
{
    if q.is_empty() {
        Vec::new()
    } else {
        with_char(q, '\n').as_str().as_bytes_vec()
    }
}

/// The text pasted as a bracketed paste.
pub open spec fn bracketed(text: Seq<char>) -> Seq<u8> {
    encode_utf8("\u{1b}[200~"@ + text + "\u{1b}[201~"@)
}

/// The bytes of a bracketed paste, which programs can tell from typing.
pub fn bracketed_paste(text: &str) -> (r: Vec<u8>)
    ensures
        r@ == bracketed(text@),
{
    let mut s = copy_text("\u{1b}[200~");
    s.append(text);
    s.append("\u{1b}[201~");
    s.as_str().as_bytes_vec()
}

/// The number xterm gives the modifiers of an arrow key; plain arrows have none.
pub open spec fn arrow_modifier(m: Mods) -> Option<u8> {
    match (m.control, m.alt) {
        (false, false) => None,
        (false, true) => Some(0x33u8),
        (true, false) => Some(0x35u8),
        (true, true) => Some(0x37u8),
    }
}

/// The last byte of an arrow key's sequence: A to D, and D for any other letter.
pub open spec fn arrow_letter(letter: u8) -> u8 {
    if letter == 0x41 || letter == 0x42 || letter == 0x43 {
        letter
    } else {
        0x44
    }
}

/// The sequence of an arrow key.
pub open spec fn arrow_bytes(letter: u8, m: Mods) -> Seq<u8> {
    match arrow_modifier(m) {
        None => seq![0x1b, 0x5b, arrow_letter(letter)],
        Some(d) => seq![0x1b, 0x5b, 0x31, 0x3b, d, arrow_letter(letter)],
    }
}

/// The sequence of an arrow key, with the held modifiers told the way xterm does, so that a word
/// move is no plain move.
pub fn arrow_seq(letter: u8, mods: &Mods) -> (r: Vec<u8>)
    ensures
        r@ == arrow_bytes(letter, *mods),
{
    let last: u8 = if letter == 0x41 || letter == 0x42 || letter == 0x43 {
        letter
    } else {
        0x44
    };
    let mut out: Vec<u8> = Vec::new();
    out.push(0x1b);
    out.push(0x5b);
    if mods.control || mods.alt {
        out.push(0x31);
        out.push(0x3b);
        out.push(
            if mods.control && mods.alt {
                0x37
            } else if mods.control {
                0x35
            } else {
                0x33
            },
        );
    }
    out.push(last);
    proof {
        assert(out@ =~= arrow_bytes(letter, *mods));
    }
    out
}

/// The sequences of the navigation and function keys that the window does not use itself.
pub open spec fn named_bytes(n: NamedKey) -> Option<Seq<u8>> {
    match n {
        NamedKey::Home => Some(seq![0x1b, 0x5b, 0x48]),
        NamedKey::End => Some(seq![0x1b, 0x5b, 0x46]),
        NamedKey::Delete => Some(seq![0x1b, 0x5b, 0x33, 0x7e]),
        NamedKey::Insert => Some(seq![0x1b, 0x5b, 0x32, 0x7e]),
        NamedKey::F1 => Some(seq![0x1b, 0x4f, 0x50]),
        NamedKey::F2 => Some(seq![0x1b, 0x4f, 0x51]),
        NamedKey::F3 => Some(seq![0x1b, 0x4f, 0x52]),
        NamedKey::F4 => Some(seq![0x1b, 0x4f, 0x53]),
        NamedKey::F5 => Some(seq![0x1b, 0x5b, 0x31, 0x35, 0x7e]),
        NamedKey::F6 => Some(seq![0x1b, 0x5b, 0x31, 0x37, 0x7e]),
        NamedKey::F7 => Some(seq![0x1b, 0x5b, 0x31, 0x38, 0x7e]),
        NamedKey::F8 => Some(seq![0x1b, 0x5b, 0x31, 0x39, 0x7e]),
        NamedKey::F9 => Some(seq![0x1b, 0x5b, 0x32, 0x30, 0x7e]),
        NamedKey::F10 => Some(seq![0x1b, 0x5b, 0x32, 0x31, 0x7e]),
        NamedKey::F11 => Some(seq![0x1b, 0x5b, 0x32, 0x33, 0x7e]),
        NamedKey::F12 => Some(seq![0x1b, 0x5b, 0x32, 0x34, 0x7e]),
        _ => None,
    }
}

/// The sequence of a navigation or function key that the window does not use itself; nothing for
/// the others.
pub fn extra_named_seq(n: &NamedKey) -> (r: Option<Vec<u8>>)
    ensures
        match r {
            Some(v) => named_bytes(*n) == Some(v@),
            None => named_bytes(*n) is None,
        },
{
    let v: Vec<u8> = match n {
        NamedKey::Home => vec![0x1b, 0x5b, 0x48],
        NamedKey::End => vec![0x1b, 0x5b, 0x46],
        NamedKey::Delete => vec![0x1b, 0x5b, 0x33, 0x7e],
        NamedKey::Insert => vec![0x1b, 0x5b, 0x32, 0x7e],
        NamedKey::F1 => vec![0x1b, 0x4f, 0x50],
        NamedKey::F2 => vec![0x1b, 0x4f, 0x51],
        NamedKey::F3 => vec![0x1b, 0x4f, 0x52],
        NamedKey::F4 => vec![0x1b, 0x4f, 0x53],
        NamedKey::F5 => vec![0x1b, 0x5b, 0x31, 0x35, 0x7e],
        NamedKey::F6 => vec![0x1b, 0x5b, 0x31, 0x37, 0x7e],
        NamedKey::F7 => vec![0x1b, 0x5b, 0x31, 0x38, 0x7e],
        NamedKey::F8 => vec![0x1b, 0x5b, 0x31, 0x39, 0x7e],
        NamedKey::F9 => vec![0x1b, 0x5b, 0x32, 0x30, 0x7e],
        NamedKey::F10 => vec![0x1b, 0x5b, 0x32, 0x31, 0x7e],
        NamedKey::F11 => vec![0x1b, 0x5b, 0x32, 0x33, 0x7e],
        NamedKey::F12 => vec![0x1b, 0x5b, 0x32, 0x34, 0x7e],
        _ => {
            return None;
        },
    };
    proof {
        assert(v@ =~= named_bytes(*n).unwrap());
    }
    Some(v)
}

/// The buttons of a mouse.
#[derive(Clone, Copy, Debug, PartialEq, Eq, Structural)]
pub enum MouseButton {
    Left,
    Right,
    Middle,
    Other,
}

/// The modifier bits of a mouse report.
pub open spec fn mouse_modifiers(m: Mods) -> u16 {
    ((if m.shift {
        4int
    } else {
        0
    }) + (if m.alt {
        8int
    } else {
        0
    }) + (if m.control {
        16int
    } else {
        0
    })) as u16
}

fn mouse_mods(m: &Mods) -> (r: u16)
    ensures
        r == mouse_modifiers(*m),
        r <= 28,
{
    let mut cb: u16 = 0;
    if m.shift {
        cb = cb + 4;
    }
    if m.alt {
        cb = cb + 8;
    }
    if m.control {
        cb = cb + 16;
    }
    cb
}

/// The report code of a button: left, middle and right pressed, and any release.
pub open spec fn button_code(button: MouseButton, pressed: bool) -> u16 {
    match (button, pressed) {
        (MouseButton::Left, true) => 0,
        (MouseButton::Middle, true) => 1,
        (MouseButton::Right, true) => 2,
        _ => 3,
    }
}

/// The report code of a button press or release with the held modifiers.
pub fn sgr_button_code(button: MouseButton, pressed: bool, mods: &Mods) -> (r: u16)
    ensures
        r == button_code(button, pressed) + mouse_modifiers(*mods),
{
    let base: u16 = match (button, pressed) {
        (MouseButton::Left, true) => 0,
        (MouseButton::Middle, true) => 1,
        (MouseButton::Right, true) => 2,
        _ => 3,
    };
    base + mouse_mods(mods)
}

/// The report code of the wheel, up into history or down, with the held modifiers.
pub fn sgr_wheel_code(up: bool, mods: &Mods) -> (r: u16)
    ensures
        r == (if up {
            64int
        } else {
            65
        }) + mouse_modifiers(*mods),
{
    let base: u16 = if up {
        64
    } else {
        65
    };
    base + mouse_mods(mods)
}

/// The report code of motion, with the left button held or without, with the held modifiers.
pub fn sgr_motion_code(held: bool, mods: &Mods) -> (r: u16)
    ensures
        r == (if held {
            32int
        } else {
            35
        }) + mouse_modifiers(*mods),
{
    let base: u16 = if held {
        32
    } else {
        35
    };
    base + mouse_mods(mods)
}

/// A mouse report in the SGR form: code, column and row, and whether it is a release.
pub open spec fn mouse_report(cb: nat, col: nat, row: nat, release: bool) -> Seq<u8> {
    encode_utf8(
        "\u{1b}[<"@ + dec(cb) + ";"@ + dec(col) + ";"@ + dec(row) + (if release {
            "m"@
        } else {
            "M"@
        }),
    )
}

/// Encodes a mouse report in the SGR form; columns and rows count from one.
pub fn sgr_mouse(cb: u16, col: usize, row: usize, release: bool) -> (r: Vec<u8>)
    ensures
        r@ == mouse_report(cb as nat, col as nat, row as nat, release),
{
    let mut s = copy_text("\u{1b}[<");
    s.append(decimal(cb as u64).as_str());
    s.append(";");
    s.append(decimal(col as u64).as_str());
    s.append(";");
    s.append(decimal(row as u64).as_str());
    s.append(
        if release {
            "m"
        } else {
            "M"
        },
    );
    s.as_str().as_bytes_vec()
}

/// Where a line editor is to put its cursor: the row and the column, counted from one.
pub open spec fn cursor_report(row: nat, col: nat) -> Seq<u8> {
    encode_utf8("\u{1b}["@ + dec(row) + ";"@ + dec(col) + "R"@)
}

/// Encodes where a line editor is to put its cursor.
pub fn cursor_bytes(row: usize, col: usize) -> (r: Vec<u8>)
    ensures
        r@ == cursor_report(row as nat, col as nat),
{
    let mut s = copy_text("\u{1b}[");
    s.append(decimal(row as u64).as_str());
    s.append(";");
    s.append(decimal(col as u64).as_str());
    s.append("R");
    s.as_bytes_vec()
}

/// What a shortcut with the command key asks for.
#[derive(Clone, Copy, Debug, PartialEq, Eq, Structural)]
pub enum CmdShortcut {
    NewSession,
    CloseActive,
    Quit,
    NextTab,
    PrevTab,
    CommandPalette,
    FleetSearch,
    /// Counted from zero; the largest number stands for the last tab.
    GotoTab(usize),
    ReopenTab,
    Duplicate,
    ReconnectAll,
    Pin,
    Mute,
    Info,
    NextQuiet,
    InterruptAll,
    Peek,
    CopyScrollback,
    ExportScrollback,
    Interrupt,
    Find,
    FindNext,
    FindPrev,
    /// Not a shortcut of the window: the key goes on.
    Unbound,
}

/// The shortcuts that ask for the command key alone.
pub const CMD_KEYS: [(&'static str, CmdShortcut); 8] = [
    ("t", CmdShortcut::NewSession),
    ("n", CmdShortcut::NewSession),
    ("N", CmdShortcut::NewSession),
    ("w", CmdShortcut::CloseActive),
    ("q", CmdShortcut::Quit),
    (".", CmdShortcut::Interrupt),
    ("f", CmdShortcut::Find),
    ("g", CmdShortcut::FindNext),
];

/// The shortcuts that ask for the shift key too.
pub const CMD_SHIFT_KEYS: [(&'static str, CmdShortcut); 18] = [
    ("]", CmdShortcut::NextTab),
    ("}", CmdShortcut::NextTab),
    ("[", CmdShortcut::PrevTab),
    ("{", CmdShortcut::PrevTab),
    ("P", CmdShortcut::CommandPalette),
    ("F", CmdShortcut::FleetSearch),
    ("T", CmdShortcut::ReopenTab),
    ("D", CmdShortcut::Duplicate),
    ("R", CmdShortcut::ReconnectAll),
    ("U", CmdShortcut::Pin),
    ("M", CmdShortcut::Mute),
    ("I", CmdShortcut::Info),
    ("C", CmdShortcut::CopyScrollback),
    ("S", CmdShortcut::ExportScrollback),
    ("J", CmdShortcut::NextQuiet),
    ("K", CmdShortcut::InterruptAll),
    ("Y", CmdShortcut::Peek),
    ("G", CmdShortcut::FindPrev),
];

/// What the first row for a key says, or that there is none.
pub open spec fn bound(rows: Seq<(&'static str, CmdShortcut)>, c: Seq<char>) -> CmdShortcut
    decreases rows.len(),
{
    if rows.len() == 0 {
        CmdShortcut::Unbound
    } else if rows[0].0@ == c {
        rows[0].1
    } else {
        bound(rows.drop_first(), c)
    }
}

fn find_bound(rows: &[(&'static str, CmdShortcut)], c: &str) -> (r: CmdShortcut)
    ensures
        r == bound(rows@, c@),
{
    let mut i: usize = 0;
    proof {
        assert(rows@.skip(0) =~= rows@);
    }
    while i < rows.len()
        invariant
            i <= rows@.len(),
            bound(rows@, c@) == bound(rows@.skip(i as int), c@),
        decreases rows@.len() - i,
    {
        proof {
            assert(rows@.skip(i as int).drop_first() =~= rows@.skip(i + 1));
        }
        if same_text(rows[i].0, c) {
            return rows[i].1;
        }
        i = i + 1;
    }
    CmdShortcut::Unbound
}

/// What a key with modifiers asks of the window. Control with Tab walks the tabs; the rest needs
/// the command key: some keys alone, some with shift, and the digits, where zero means the last
/// tab.
pub open spec fn shortcut_of(key: KeyView, m: Mods) -> CmdShortcut {
    if m.control && key == KeyView::Named(NamedKey::Tab) {
        if m.shift {
            CmdShortcut::PrevTab
        } else {
            CmdShortcut::NextTab
        }
    } else if !m.logo {
        CmdShortcut::Unbound
    } else {
        match key {
            KeyView::Character(c) => if bound(CMD_KEYS@, c) != CmdShortcut::Unbound {
                bound(CMD_KEYS@, c)
            } else if m.shift && bound(CMD_SHIFT_KEYS@, c) != CmdShortcut::Unbound {
                bound(CMD_SHIFT_KEYS@, c)
            } else if c.len() == 1 && '1' <= c[0] && c[0] <= '9' {
                CmdShortcut::GotoTab((c[0] as int - 49) as usize)
            } else if c.len() == 1 && c[0] == '0' {
                CmdShortcut::GotoTab(usize::MAX)
            } else {
                CmdShortcut::Unbound
            },
            _ => CmdShortcut::Unbound,
        }
    }
}

/// What a key with modifiers asks of the window; see [`shortcut_of`].
pub fn cmd_shortcut(key: &Key, mods: &Mods) -> (r: CmdShortcut)
    ensures
        r == shortcut_of(key@, *mods),
{
    if mods.control && matches!(key, Key::Named(NamedKey::Tab)) {
        return if mods.shift {
            CmdShortcut::PrevTab
        } else {
            CmdShortcut::NextTab
        };
    }
    if !mods.logo {
        return CmdShortcut::Unbound;
    }
    match key {
        Key::Character(s) => {
            let plain = find_bound(&CMD_KEYS, s.as_str());
            if plain != CmdShortcut::Unbound {
                return plain;
            }
            if mods.shift {
                let shifted = find_bound(&CMD_SHIFT_KEYS, s.as_str());
                if shifted != CmdShortcut::Unbound {
                    return shifted;
                }
            }
            let v = chars_of(s.as_str());
            if v.len() == 1 {
                let c = v[0];
                if '1' <= c && c <= '9' {
                    return CmdShortcut::GotoTab(c as usize - 49);
                }
                if c == '0' {
                    return CmdShortcut::GotoTab(usize::MAX);
                }
            }
            CmdShortcut::Unbound
        },
        _ => CmdShortcut::Unbound,
    }
}

/// Without the command key nothing is taken from typing: only control with Tab is.
pub proof fn law_typing_is_not_hijacked(key: KeyView, m: Mods)
    requires
        !m.logo,
        !(m.control && key == KeyView::Named(NamedKey::Tab)),
    ensures
        shortcut_of(key, m) == CmdShortcut::Unbound,
{
}

/// The first row of a table that is for a key is the one that counts.
proof fn lemma_bound(rows: Seq<(&'static str, CmdShortcut)>, c: Seq<char>, i: int)
    requires
        0 <= i < rows.len(),
        rows[i].0@ == c,
        forall|j: int| 0 <= j < i ==> (#[trigger] rows[j]).0@ != c,
    ensures
        bound(rows, c) == rows[i].1,
    decreases rows.len(),
{
    if i > 0 {
        assert(rows[0].0@ != c);
        assert forall|j: int| 0 <= j < i - 1 implies (#[trigger] rows.drop_first()[j]).0@ != c by {
            assert(rows[j + 1].0@ != c);
        }
        lemma_bound(rows.drop_first(), c, i - 1);
    }
}

/// The command key with a letter opens, closes, quits, interrupts and searches, whatever else is
/// held.
pub proof fn law_command_keys(m: Mods)
    requires
        m.logo,
    ensures
        shortcut_of(KeyView::Character("t"@), m) == CmdShortcut::NewSession,
        shortcut_of(KeyView::Character("n"@), m) == CmdShortcut::NewSession,
        shortcut_of(KeyView::Character("N"@), m) == CmdShortcut::NewSession,
        shortcut_of(KeyView::Character("w"@), m) == CmdShortcut::CloseActive,
        shortcut_of(KeyView::Character("q"@), m) == CmdShortcut::Quit,
        shortcut_of(KeyView::Character("."@), m) == CmdShortcut::Interrupt,
        shortcut_of(KeyView::Character("f"@), m) == CmdShortcut::Find,
        shortcut_of(KeyView::Character("g"@), m) == CmdShortcut::FindNext,
{
    reveal_strlit("t");
    reveal_strlit("n");
    reveal_strlit("N");
    reveal_strlit("w");
    reveal_strlit("q");
    reveal_strlit(".");
    reveal_strlit("f");
    reveal_strlit("g");
    assert("t"@[0] == 't');
    assert("n"@[0] == 'n');
    assert("N"@[0] == 'N');
    assert("w"@[0] == 'w');
    assert("q"@[0] == 'q');
    assert("."@[0] == '.');
    assert("f"@[0] == 'f');
    assert("g"@[0] == 'g');
    let rows = CMD_KEYS@;
    lemma_bound(rows, "t"@, 0);
    lemma_bound(rows, "n"@, 1);
    lemma_bound(rows, "N"@, 2);
    lemma_bound(rows, "w"@, 3);
    lemma_bound(rows, "q"@, 4);
    lemma_bound(rows, "."@, 5);
    lemma_bound(rows, "f"@, 6);
    lemma_bound(rows, "g"@, 7);
}

/// A key that no row of a table is for is not in it.
proof fn lemma_not_bound(rows: Seq<(&'static str, CmdShortcut)>, c: Seq<char>)
    requires
        forall|j: int| 0 <= j < rows.len() ==> (#[trigger] rows[j]).0@ != c,
    ensures
        bound(rows, c) == CmdShortcut::Unbound,
    decreases rows.len(),
{
    if rows.len() > 0 {
        assert forall|j: int| 0 <= j < rows.len() - 1 implies (#[trigger] rows.drop_first()[j]).0@
            != c by {
            assert(rows[j + 1].0@ != c);
        }
        lemma_not_bound(rows.drop_first(), c);
    }
}

/// The rows of the two tables of shortcuts: each is one character, and no two are the same.
proof fn lemma_shortcut_rows()
    ensures
        forall|i: int|
            0 <= i < CMD_KEYS@.len() ==> (#[trigger] CMD_KEYS@[i]).0@.len() == 1,
        forall|i: int|
            0 <= i < CMD_SHIFT_KEYS@.len() ==> (#[trigger] CMD_SHIFT_KEYS@[i]).0@.len() == 1,
        CMD_KEYS@[0].0@[0] == 't',
        CMD_KEYS@[1].0@[0] == 'n',
        CMD_KEYS@[2].0@[0] == 'N',
        CMD_KEYS@[3].0@[0] == 'w',
        CMD_KEYS@[4].0@[0] == 'q',
        CMD_KEYS@[5].0@[0] == '.',
        CMD_KEYS@[6].0@[0] == 'f',
        CMD_KEYS@[7].0@[0] == 'g',
        CMD_SHIFT_KEYS@[0].0@[0] == ']',
        CMD_SHIFT_KEYS@[1].0@[0] == '}',
        CMD_SHIFT_KEYS@[2].0@[0] == '[',
        CMD_SHIFT_KEYS@[3].0@[0] == '{',
        CMD_SHIFT_KEYS@[4].0@[0] == 'P',
        CMD_SHIFT_KEYS@[5].0@[0] == 'F',
        CMD_SHIFT_KEYS@[6].0@[0] == 'T',
        CMD_SHIFT_KEYS@[7].0@[0] == 'D',
        CMD_SHIFT_KEYS@[8].0@[0] == 'R',
        CMD_SHIFT_KEYS@[9].0@[0] == 'U',
        CMD_SHIFT_KEYS@[10].0@[0] == 'M',
        CMD_SHIFT_KEYS@[11].0@[0] == 'I',
        CMD_SHIFT_KEYS@[12].0@[0] == 'C',
        CMD_SHIFT_KEYS@[13].0@[0] == 'S',
        CMD_SHIFT_KEYS@[14].0@[0] == 'J',
        CMD_SHIFT_KEYS@[15].0@[0] == 'K',
        CMD_SHIFT_KEYS@[16].0@[0] == 'Y',
        CMD_SHIFT_KEYS@[17].0@[0] == 'G',
{
    reveal_strlit("t");
    reveal_strlit("n");
    reveal_strlit("N");
    reveal_strlit("w");
    reveal_strlit("q");
    reveal_strlit(".");
    reveal_strlit("f");
    reveal_strlit("g");
    reveal_strlit("]");
    reveal_strlit("}");
    reveal_strlit("[");
    reveal_strlit("{");
    reveal_strlit("P");
    reveal_strlit("F");
    reveal_strlit("T");
    reveal_strlit("D");
    reveal_strlit("R");
    reveal_strlit("U");
    reveal_strlit("M");
    reveal_strlit("I");
    reveal_strlit("C");
    reveal_strlit("S");
    reveal_strlit("J");
    reveal_strlit("K");
    reveal_strlit("Y");
    reveal_strlit("G");
}

/// The command and the shift key with a letter: the tabs, the palette, the searches and the rest.
/// Without the shift key these letters are not shortcuts.
pub proof fn law_command_shift_keys(m: Mods)
    requires
        m.logo,
    ensures
        shortcut_of(KeyView::Character("]"@), m) == if m.shift {
            CmdShortcut::NextTab
        } else {
            CmdShortcut::Unbound
        },
        shortcut_of(KeyView::Character("}"@), m) == if m.shift {
            CmdShortcut::NextTab
        } else {
            CmdShortcut::Unbound
        },
        shortcut_of(KeyView::Character("["@), m) == if m.shift {
            CmdShortcut::PrevTab
        } else {
            CmdShortcut::Unbound
        },
        shortcut_of(KeyView::Character("{"@), m) == if m.shift {
            CmdShortcut::PrevTab
        } else {
            CmdShortcut::Unbound
        },
        shortcut_of(KeyView::Character("P"@), m) == if m.shift {
            CmdShortcut::CommandPalette
        } else {
            CmdShortcut::Unbound
        },
        shortcut_of(KeyView::Character("F"@), m) == if m.shift {
            CmdShortcut::FleetSearch
        } else {
            CmdShortcut::Unbound
        },
        shortcut_of(KeyView::Character("T"@), m) == if m.shift {
            CmdShortcut::ReopenTab
        } else {
            CmdShortcut::Unbound
        },
        shortcut_of(KeyView::Character("D"@), m) == if m.shift {
            CmdShortcut::Duplicate
        } else {
            CmdShortcut::Unbound
        },
        shortcut_of(KeyView::Character("R"@), m) == if m.shift {
            CmdShortcut::ReconnectAll
        } else {
            CmdShortcut::Unbound
        },
        shortcut_of(KeyView::Character("U"@), m) == if m.shift {
            CmdShortcut::Pin
        } else {
            CmdShortcut::Unbound
        },
        shortcut_of(KeyView::Character("M"@), m) == if m.shift {
            CmdShortcut::Mute
        } else {
            CmdShortcut::Unbound
        },
        shortcut_of(KeyView::Character("I"@), m) == if m.shift {
            CmdShortcut::Info
        } else {
            CmdShortcut::Unbound
        },
        shortcut_of(KeyView::Character("C"@), m) == if m.shift {
            CmdShortcut::CopyScrollback
        } else {
            CmdShortcut::Unbound
        },
        shortcut_of(KeyView::Character("S"@), m) == if m.shift {
            CmdShortcut::ExportScrollback
        } else {
            CmdShortcut::Unbound
        },
        shortcut_of(KeyView::Character("J"@), m) == if m.shift {
            CmdShortcut::NextQuiet
        } else {
            CmdShortcut::Unbound
        },
        shortcut_of(KeyView::Character("K"@), m) == if m.shift {
            CmdShortcut::InterruptAll
        } else {
            CmdShortcut::Unbound
        },
        shortcut_of(KeyView::Character("Y"@), m) == if m.shift {
            CmdShortcut::Peek
        } else {
            CmdShortcut::Unbound
        },
        shortcut_of(KeyView::Character("G"@), m) == if m.shift {
            CmdShortcut::FindPrev
        } else {
            CmdShortcut::Unbound
        },
{
    lemma_shortcut_rows();
    reveal_strlit("]");
    assert("]"@[0] == ']');
    lemma_not_bound(CMD_KEYS@, "]"@);
    lemma_bound(CMD_SHIFT_KEYS@, "]"@, 0);
    reveal_strlit("}");
    assert("}"@[0] == '}');
    lemma_not_bound(CMD_KEYS@, "}"@);
    lemma_bound(CMD_SHIFT_KEYS@, "}"@, 1);
    reveal_strlit("[");
    assert("["@[0] == '[');
    lemma_not_bound(CMD_KEYS@, "["@);
    lemma_bound(CMD_SHIFT_KEYS@, "["@, 2);
    reveal_strlit("{");
    assert("{"@[0] == '{');
    lemma_not_bound(CMD_KEYS@, "{"@);
    lemma_bound(CMD_SHIFT_KEYS@, "{"@, 3);
    reveal_strlit("P");
    assert("P"@[0] == 'P');
    lemma_not_bound(CMD_KEYS@, "P"@);
    lemma_bound(CMD_SHIFT_KEYS@, "P"@, 4);
    reveal_strlit("F");
    assert("F"@[0] == 'F');
    lemma_not_bound(CMD_KEYS@, "F"@);
    lemma_bound(CMD_SHIFT_KEYS@, "F"@, 5);
    reveal_strlit("T");
    assert("T"@[0] == 'T');
    lemma_not_bound(CMD_KEYS@, "T"@);
    lemma_bound(CMD_SHIFT_KEYS@, "T"@, 6);
    reveal_strlit("D");
    assert("D"@[0] == 'D');
    lemma_not_bound(CMD_KEYS@, "D"@);
    lemma_bound(CMD_SHIFT_KEYS@, "D"@, 7);
    reveal_strlit("R");
    assert("R"@[0] == 'R');
    lemma_not_bound(CMD_KEYS@, "R"@);
    lemma_bound(CMD_SHIFT_KEYS@, "R"@, 8);
    reveal_strlit("U");
    assert("U"@[0] == 'U');
    lemma_not_bound(CMD_KEYS@, "U"@);
    lemma_bound(CMD_SHIFT_KEYS@, "U"@, 9);
    reveal_strlit("M");
    assert("M"@[0] == 'M');
    lemma_not_bound(CMD_KEYS@, "M"@);
    lemma_bound(CMD_SHIFT_KEYS@, "M"@, 10);
    reveal_strlit("I");
    assert("I"@[0] == 'I');
    lemma_not_bound(CMD_KEYS@, "I"@);
    lemma_bound(CMD_SHIFT_KEYS@, "I"@, 11);
    reveal_strlit("C");
    assert("C"@[0] == 'C');
    lemma_not_bound(CMD_KEYS@, "C"@);
    lemma_bound(CMD_SHIFT_KEYS@, "C"@, 12);
    reveal_strlit("S");
    assert("S"@[0] == 'S');
    lemma_not_bound(CMD_KEYS@, "S"@);
    lemma_bound(CMD_SHIFT_KEYS@, "S"@, 13);
    reveal_strlit("J");
    assert("J"@[0] == 'J');
    lemma_not_bound(CMD_KEYS@, "J"@);
    lemma_bound(CMD_SHIFT_KEYS@, "J"@, 14);
    reveal_strlit("K");
    assert("K"@[0] == 'K');
    lemma_not_bound(CMD_KEYS@, "K"@);
    lemma_bound(CMD_SHIFT_KEYS@, "K"@, 15);
    reveal_strlit("Y");
    assert("Y"@[0] == 'Y');
    lemma_not_bound(CMD_KEYS@, "Y"@);
    lemma_bound(CMD_SHIFT_KEYS@, "Y"@, 16);
    reveal_strlit("G");
    assert("G"@[0] == 'G');
    lemma_not_bound(CMD_KEYS@, "G"@);
    lemma_bound(CMD_SHIFT_KEYS@, "G"@, 17);
}

/// The command key with a digit goes to that tab, counted from one; with zero to the last.
pub proof fn law_command_digits(m: Mods, d: char)
    requires
        m.logo,
        '0' <= d <= '9',
    ensures
        d == '0' ==> shortcut_of(KeyView::Character(seq![d]), m) == CmdShortcut::GotoTab(
            usize::MAX,
        ),
        d != '0' ==> (shortcut_of(KeyView::Character(seq![d]), m) matches CmdShortcut::GotoTab(i)
            && i + 1 == d as int - '0' as int),
{
    lemma_shortcut_rows();
    lemma_not_bound(CMD_KEYS@, seq![d]);
    lemma_not_bound(CMD_SHIFT_KEYS@, seq![d]);
}

/// The control key with Tab goes to the next tab, and with shift too to the one before.
pub proof fn law_control_tab(m: Mods)
    requires
        m.control,
    ensures
        !m.shift ==> shortcut_of(KeyView::Named(NamedKey::Tab), m) == CmdShortcut::NextTab,
        m.shift ==> shortcut_of(KeyView::Named(NamedKey::Tab), m) == CmdShortcut::PrevTab,
{
}

/// A release tells no button; a press tells the left one by 0, the middle one by 1 and the right
/// one by 2; and shift, alt and control add 4, 8 and 16.
pub proof fn law_mouse_codes(m: Mods, b: MouseButton)
    ensures
        button_code(MouseButton::Left, true) == 0,
        button_code(MouseButton::Middle, true) == 1,
        button_code(MouseButton::Right, true) == 2,
        button_code(b, false) == 3,
        mouse_modifiers(m) % 8 == if m.shift {
            4int
        } else {
            0
        },
        mouse_modifiers(m) / 16 == if m.control {
            1int
        } else {
            0
        },
        (mouse_modifiers(m) / 8) % 2 == if m.alt {
            1int
        } else {
            0
        },
{
}

/// A line that is broadcast is what was typed and one line break; an empty line sends nothing.
pub proof fn law_broadcast_line(q: Seq<char>)
    requires
        is_ascii_chars(q),
    ensures
        q.len() == 0 ==> broadcast_line(q).len() == 0,
        q.len() > 0 ==> {
            &&& broadcast_line(q).len() == q.len() + 1
            &&& broadcast_line(q).last() == 0x0a
            &&& forall|i: int|
                0 <= i < q.len() ==> #[trigger] broadcast_line(q)[i] == q[i] as u8
        },
{
    if q.len() > 0 {
        let t = q.push('\n');
        assert(is_ascii_chars(t));
        is_ascii_chars_encode_utf8(t);
        assert(t[q.len() as int] == '\n');
        assert forall|i: int| 0 <= i < q.len() implies #[trigger] broadcast_line(q)[i]
            == q[i] as u8 by {
            assert(t[i] == q[i]);
        }
    }
}

/// A pasted text goes out as it is between the marks that open and close a bracketed paste.
pub proof fn law_paste_is_bracketed(text: Seq<char>)
    requires
        is_ascii_chars(text),
    ensures
        ({
            let r = bracketed(text);
            &&& r.len() == text.len() + 12
            &&& r.take(6) == seq![0x1bu8, 0x5b, 0x32, 0x30, 0x30, 0x7e]
            &&& r.skip(text.len() as int + 6) == seq![0x1bu8, 0x5b, 0x32, 0x30, 0x31, 0x7e]
            &&& forall|i: int| 0 <= i < text.len() ==> #[trigger] text[i] as u8 == r[i + 6]
        }),
{
    reveal_strlit("\u{1b}[200~");
    reveal_strlit("\u{1b}[201~");
    let (a, b) = ("\u{1b}[200~"@, "\u{1b}[201~"@);
    let t = a + text + b;
    assert(is_ascii_chars(t));
    is_ascii_chars_encode_utf8(t);
    let r = bracketed(text);
    assert(r.len() == t.len());
    assert(t[0] == '\u{1b}' && t[1] == '[' && t[2] == '2' && t[3] == '0' && t[4] == '0' && t[5]
        == '~');
    assert(r[0] == 0x1b && r[1] == 0x5b && r[2] == 0x32 && r[3] == 0x30 && r[4] == 0x30 && r[5]
        == 0x7e);
    assert(r.take(6) =~= seq![0x1bu8, 0x5b, 0x32, 0x30, 0x30, 0x7e]);
    let n = text.len() as int + 6;
    assert(t[n] == b[0] && t[n + 1] == b[1] && t[n + 2] == b[2] && t[n + 3] == b[3] && t[n + 4]
        == b[4] && t[n + 5] == b[5]);
    assert(r.skip(n) =~= seq![0x1bu8, 0x5b, 0x32, 0x30, 0x31, 0x7e]);
    assert forall|i: int| 0 <= i < text.len() implies #[trigger] text[i] as u8 == r[i + 6] by {
        assert(t[i + 6] == text[i]);
    }
}

} // verus!
