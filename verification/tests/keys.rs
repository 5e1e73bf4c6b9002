//! What keys, the mouse and pasted text become as bytes, and which keys are shortcuts.

use harness_terminal::keys::{
    arrow_seq, bracketed_paste, broadcast_bytes, cmd_shortcut, ctrl_byte, cursor_bytes,
    extra_named_seq, sgr_button_code, sgr_motion_code, sgr_mouse, sgr_wheel_code, CmdShortcut, Key,
    Mods, MouseButton, NamedKey,
};

fn mods(shift: bool, control: bool, alt: bool, logo: bool) -> Mods {
    Mods {
        shift,
        control,
        alt,
        logo,
    }
}

/// The macOS Cmd shortcuts map to the right actions, and crucially do NOT fire without the
/// Cmd (super) modifier or with a modifier they don't own (so plain typing is never hijacked).
#[test]
fn cmd_shortcut_routes_native_shortcuts_only() {
    let s = mods(false, false, false, true);
    let sc = mods(true, false, false, true);
    let no_cmd = mods(true, false, false, false);

    let chars = |c: &str, m: Mods| cmd_shortcut(&Key::Character(c.to_string()), &m);

    // Cmd+T / Cmd+N / Cmd+Shift+N open the New-Session picker.
    assert_eq!(chars("t", s), CmdShortcut::NewSession);
    assert_eq!(chars("n", s), CmdShortcut::NewSession);
    assert_eq!(
        chars("N", sc),
        CmdShortcut::NewSession,
        "Cmd+Shift+N also opens"
    );
    // Cmd+W closes, Cmd+Q quits.
    assert_eq!(chars("w", s), CmdShortcut::CloseActive);
    assert_eq!(chars("q", s), CmdShortcut::Quit);
    // With Shift they switch tabs; without Shift they're left alone. Accept both the
    // un-shifted (`]`/`[`) and shifted (`}`/`{`) glyphs a real US-layout Shift+[/] produces.
    assert_eq!(chars("]", sc), CmdShortcut::NextTab);
    assert_eq!(chars("}", sc), CmdShortcut::NextTab, "shifted ] glyph");
    assert_eq!(chars("[", sc), CmdShortcut::PrevTab);
    assert_eq!(chars("{", sc), CmdShortcut::PrevTab, "shifted [ glyph");
    // Cmd+Shift+D duplicates the active session; plain Cmd+D is left alone.
    assert_eq!(chars("D", sc), CmdShortcut::Duplicate);
    assert_eq!(
        chars("d", s),
        CmdShortcut::Unbound,
        "plain Cmd+D must not hijack"
    );
    // Cmd+Shift+P opens the command palette; plain Cmd+P is left alone.
    assert_eq!(chars("P", sc), CmdShortcut::CommandPalette);
    assert_eq!(
        chars("p", sc),
        CmdShortcut::Unbound,
        "plain Cmd+P is not hijacked"
    );
    // Cmd+Shift+F opens fleet search; plain Cmd+F opens find-in-session (both the shifted and
    // un-shifted `f` glyph route to Find — the uppercase `F` with the shift modifier is the
    // fleet tag, so Cmd+Shift+F is what must differ, and it does).
    assert_eq!(chars("F", sc), CmdShortcut::FleetSearch);
    assert_eq!(chars("f", sc), CmdShortcut::Find);
    assert_eq!(chars("f", s), CmdShortcut::Find);
    // Cmd+Shift+R force-reconnects all down panes; plain Cmd+R is left alone.
    assert_eq!(chars("R", sc), CmdShortcut::ReconnectAll);
    assert_eq!(
        chars("r", s),
        CmdShortcut::Unbound,
        "plain Cmd+R must not hijack the shell"
    );
    // Cmd+Shift+U toggles pin; Cmd+Shift+M toggles mute; both plain Cmd forms stay free.
    assert_eq!(chars("U", sc), CmdShortcut::Pin);
    assert_eq!(
        chars("u", s),
        CmdShortcut::Unbound,
        "plain Cmd+U is not hijacked"
    );
    assert_eq!(chars("M", sc), CmdShortcut::Mute);
    assert_eq!(
        chars("m", s),
        CmdShortcut::Unbound,
        "plain Cmd+M is not hijacked"
    );
    // Cmd+Shift+I shows the active tab's info; plain Cmd+I stays with the shell.
    assert_eq!(chars("I", sc), CmdShortcut::Info);
    assert_eq!(
        chars("i", s),
        CmdShortcut::Unbound,
        "plain Cmd+I is not hijacked"
    );
    // Cmd+Shift+C copies the whole scrollback; plain Cmd+C stays the copy-selection key.
    assert_eq!(chars("C", sc), CmdShortcut::CopyScrollback);
    assert_eq!(
        chars("c", s),
        CmdShortcut::Unbound,
        "plain Cmd+C is not hijacked"
    );
    // Cmd+Shift+S exports the scrollback to a .log; plain Cmd+S stays with the shell.
    assert_eq!(chars("S", sc), CmdShortcut::ExportScrollback);
    assert_eq!(
        chars("s", s),
        CmdShortcut::Unbound,
        "plain Cmd+S is not hijacked"
    );
    // Cmd+. interrupts the active session — the macOS stop key.
    assert_eq!(chars(".", s), CmdShortcut::Interrupt);
    // Cmd+Shift+J jumps to the next quiet (awaiting-you) agent; plain Cmd+J stays free.
    assert_eq!(chars("J", sc), CmdShortcut::NextQuiet);
    assert_eq!(
        chars("j", s),
        CmdShortcut::Unbound,
        "plain Cmd+J is not hijacked"
    );
    // Cmd+Shift+K stops the whole fleet (Ctrl-C to all); plain Cmd+K stays free.
    assert_eq!(chars("K", sc), CmdShortcut::InterruptAll);
    assert_eq!(
        chars("k", s),
        CmdShortcut::Unbound,
        "plain Cmd+K is not hijacked"
    );
    // Cmd+Shift+Y opens peek; plain Cmd+Y stays free.
    assert_eq!(chars("Y", sc), CmdShortcut::Peek);
    assert_eq!(
        chars("y", s),
        CmdShortcut::Unbound,
        "plain Cmd+Y is not hijacked"
    );
    // Cmd+G / Cmd+Shift+G: next / previous find match.
    assert_eq!(chars("g", s), CmdShortcut::FindNext);
    assert_eq!(chars("G", sc), CmdShortcut::FindPrev);
    assert_eq!(
        chars("]", s),
        CmdShortcut::Unbound,
        "plain Cmd+] is not a shortcut"
    );
    assert_eq!(
        chars("[", s),
        CmdShortcut::Unbound,
        "plain Cmd+[ stays with the shell"
    );
    // Browser-style Ctrl+Tab / Ctrl+Shift+Tab cycle tabs, independent of the Cmd chord.
    let ctrl = mods(false, true, false, false);
    let ctrl_shift = mods(true, true, false, false);
    let tab = Key::Named(NamedKey::Tab);
    assert_eq!(cmd_shortcut(&tab, &ctrl), CmdShortcut::NextTab);
    assert_eq!(cmd_shortcut(&tab, &ctrl_shift), CmdShortcut::PrevTab);
    // A bare Tab (no Ctrl) is NOT captured — it must keep going to the session/shell.
    assert_eq!(
        cmd_shortcut(&tab, &mods(false, false, false, false)),
        CmdShortcut::Unbound
    );
    // And Ctrl+Tab still requires a real Tab key, not a character.
    assert_eq!(
        cmd_shortcut(&Key::Character("t".to_string()), &ctrl),
        CmdShortcut::Unbound
    );

    // Cmd+number jumps to a tab: 1..9 are 1-based, 0 is the last tab (usize::MAX sentinel).
    assert_eq!(chars("1", s), CmdShortcut::GotoTab(0));
    assert_eq!(chars("5", s), CmdShortcut::GotoTab(4));
    assert_eq!(chars("9", s), CmdShortcut::GotoTab(8));
    assert_eq!(chars("0", s), CmdShortcut::GotoTab(usize::MAX));
    // Cmd+Shift+T reopens the last-closed tab; plain Cmd+t stays NewSession.
    assert_eq!(chars("T", sc), CmdShortcut::ReopenTab);
    assert_eq!(
        chars("t", s),
        CmdShortcut::NewSession,
        "plain Cmd+T unchanged"
    );
    // Shifted digits ("!") are NOT tab jumps — they fall through to None.
    assert_eq!(chars("!", sc), CmdShortcut::Unbound);
    // No Cmd at all: nothing is a shortcut (typing flows through).
    assert_eq!(chars("t", no_cmd), CmdShortcut::Unbound);
    assert_eq!(
        cmd_shortcut(&Key::Named(NamedKey::Enter), &s),
        CmdShortcut::Unbound
    );
    // Cmd+C / Cmd+V are copy/paste, handled elsewhere — not a tab shortcut.
    assert_eq!(chars("c", s), CmdShortcut::Unbound);
    assert_eq!(chars("v", s), CmdShortcut::Unbound);
}

/// Home/End/forward-Delete/Insert/F-keys map to the standard terminal escape sequences so they
/// actually reach bash/readline/TUIs, and the keys the app owns (arrows, Tab, PageUp, Escape)
/// deliberately return None instead of being double-forwarded.
#[test]
fn extra_named_seq_maps_navigation_keys_to_escapes() {
    // The app-level keys we forward.
    assert_eq!(extra_named_seq(&NamedKey::Home), Some(b"\x1b[H".to_vec()));
    assert_eq!(extra_named_seq(&NamedKey::End), Some(b"\x1b[F".to_vec()));
    assert_eq!(extra_named_seq(&NamedKey::Delete), Some(b"\x1b[3~".to_vec()));
    assert_eq!(extra_named_seq(&NamedKey::Insert), Some(b"\x1b[2~".to_vec()));
    assert_eq!(extra_named_seq(&NamedKey::F1), Some(b"\x1bOP".to_vec()));
    assert_eq!(extra_named_seq(&NamedKey::F4), Some(b"\x1bOS".to_vec()));
    assert_eq!(extra_named_seq(&NamedKey::F5), Some(b"\x1b[15~".to_vec()));
    assert_eq!(extra_named_seq(&NamedKey::F12), Some(b"\x1b[24~".to_vec()));
    // Keys the app consumes itself must not ALSO be forwarded to the shell.
    assert_eq!(extra_named_seq(&NamedKey::ArrowUp), None);
    assert_eq!(extra_named_seq(&NamedKey::Tab), None);
    assert_eq!(extra_named_seq(&NamedKey::PageUp), None);
    assert_eq!(extra_named_seq(&NamedKey::PageDown), None);
    assert_eq!(extra_named_seq(&NamedKey::Escape), None);
    assert_eq!(extra_named_seq(&NamedKey::Enter), None);
}

#[test]
fn sgr_mouse_encodes_xterm_1006_sequences_byte_for_byte() {
    // Press: ESC [ < Cb ; Cx ; Cy M, 1-based coordinates.
    assert_eq!(sgr_mouse(0, 5, 6, false), b"\x1b[<0;5;6M");
    assert_eq!(sgr_mouse(2, 1, 1, false), b"\x1b[<2;1;1M");
    assert_eq!(sgr_mouse(69, 40, 24, false), b"\x1b[<69;40;24M");
    // Release: trailing lowercase m.
    assert_eq!(sgr_mouse(3, 5, 6, true), b"\x1b[<3;5;6m");
    assert_eq!(sgr_mouse(35, 7, 8, true), b"\x1b[<35;7;8m");
}

#[test]
fn sgr_button_code_maps_buttons_modifiers_and_release() {
    let none = mods(false, false, false, false);
    // Plain presses: left=0, middle=1, right=2.
    assert_eq!(
        sgr_button_code(MouseButton::Left, true, &none),
        0
    );
    assert_eq!(
        sgr_button_code(MouseButton::Middle, true, &none),
        1
    );
    assert_eq!(
        sgr_button_code(MouseButton::Right, true, &none),
        2
    );
    // Any release is 3.
    assert_eq!(
        sgr_button_code(MouseButton::Left, false, &none),
        3
    );
    assert_eq!(
        sgr_button_code(MouseButton::Right, false, &none),
        3
    );
    // Modifiers shift(4)/alt(8)/ctrl(16) fold in on top.
    assert_eq!(
        sgr_button_code(MouseButton::Left, true, &mods(true, false, false, false)),
        4
    );
    assert_eq!(
        sgr_button_code(MouseButton::Right, true, &mods(false, false, true, false)),
        10
    );
    assert_eq!(
        sgr_button_code(MouseButton::Left, true, &mods(false, true, false, false)),
        16
    );
    assert_eq!(
        sgr_button_code(
            MouseButton::Left,
            true,
            &mods(true, true, true, false)
        ),
        28
    );
}

#[test]
fn sgr_wheel_and_motion_codes_are_stable() {
    let none = mods(false, false, false, false);
    // Wheel up=64, down=65, shift adds 4.
    assert_eq!(sgr_wheel_code(true, &none), 64);
    assert_eq!(sgr_wheel_code(false, &none), 65);
    assert_eq!(sgr_wheel_code(true, &mods(true, false, false, false)), 68);
    // Motion: buttonless=35, left-drag=32, ctrl folds in.
    assert_eq!(sgr_motion_code(false, &none), 35);
    assert_eq!(sgr_motion_code(true, &none), 32);
    assert_eq!(sgr_motion_code(false, &mods(false, true, false, false)), 51);
    assert_eq!(sgr_motion_code(true, &mods(true, false, false, false)), 36);
}

/// Arrows honor the Ctr/Alt modifier encoding so readline gets word/paragraph moves (Ctrl+Left
/// etc.) instead of plain char moves, while bare arrows stay untouched.
#[test]
fn arrow_seq_honors_ctrl_and_alt_modifiers() {
    let ctrl = mods(false, true, false, false);
    let alt = mods(false, false, true, false);
    let both = mods(false, true, true, false);
    let none = mods(false, false, false, false);
    // Bare arrows unchanged.
    assert_eq!(arrow_seq(b'D', &none), &b"\x1b[D"[..]);
    assert_eq!(arrow_seq(b'C', &none), &b"\x1b[C"[..]);
    // Ctrl+arrows → word/paragraph moves (xterm 1;5 encoding).
    assert_eq!(arrow_seq(b'D', &ctrl), &b"\x1b[1;5D"[..]);
    assert_eq!(arrow_seq(b'C', &ctrl), &b"\x1b[1;5C"[..]);
    assert_eq!(arrow_seq(b'A', &ctrl), &b"\x1b[1;5A"[..]);
    assert_eq!(arrow_seq(b'B', &ctrl), &b"\x1b[1;5B"[..]);
    // Alt+arrows → object moves (1;3), and Ctrl+Alt → 1;7.
    assert_eq!(arrow_seq(b'D', &alt), &b"\x1b[1;3D"[..]);
    assert_eq!(arrow_seq(b'C', &both), &b"\x1b[1;7C"[..]);
}

/// Broadcast formatting: a non-blank line is fanned out with a trailing newline; a blank line
/// sends nothing (never broadcast a bare newline).
#[test]
fn broadcast_bytes_sends_line_but_not_blank() {
    assert_eq!(broadcast_bytes("git pull"), b"git pull\n");
    assert_eq!(
        broadcast_bytes("  "),
        b"  \n",
        "whitespace-only is still a real line"
    );
    assert!(
        broadcast_bytes("").is_empty(),
        "blank must not broadcast a bare newline"
    );
}

/// A letter with control held sends its place in the alphabet, whatever its case.
#[test]
fn control_letters_are_their_place_in_the_alphabet() {
    assert_eq!(ctrl_byte("a"), Some(1));
    assert_eq!(ctrl_byte("C"), Some(3));
    assert_eq!(ctrl_byte("z"), Some(26));
    assert_eq!(ctrl_byte("1"), None);
    assert_eq!(ctrl_byte(""), None);
}

/// A paste is told from typing by what stands around it.
#[test]
fn pasted_text_is_bracketed() {
    assert_eq!(bracketed_paste("ls é"), "\x1b[200~ls é\x1b[201~".as_bytes());
    assert_eq!(bracketed_paste(""), b"\x1b[200~\x1b[201~");
}

/// A line editor is told where to put its cursor by row and column.
#[test]
fn a_cursor_place_is_row_and_column() {
    assert_eq!(cursor_bytes(1, 1), b"\x1b[1;1R");
    assert_eq!(cursor_bytes(5, 10), b"\x1b[5;10R");
}

/// Without the command key no letter is a shortcut, whatever else is held.
#[test]
fn typing_is_never_a_shortcut() {
    for c in ["t", "w", "q", "g", "1", ".", "P", "F"] {
        for bits in 0..8 {
            let m = mods(bits & 1 != 0, bits & 2 != 0, bits & 4 != 0, false);
            assert_eq!(
                cmd_shortcut(&Key::Character(c.to_string()), &m),
                CmdShortcut::Unbound
            );
        }
    }
}

/// Any letter but the first three arrows is read as the left arrow.
#[test]
fn an_unknown_arrow_goes_left() {
    assert_eq!(arrow_seq(b'Z', &mods(false, false, false, false)), b"\x1b[D");
    assert_eq!(arrow_seq(b'B', &mods(true, false, true, false)), b"\x1b[1;3B");
}
