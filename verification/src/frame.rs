//! A whole frame: what lies under an overlay, the overlay, and what pops up over both.

use vstd::prelude::*;
use vstd::string::*;

use crate::activity::{detect_content_change, Slot};
use crate::board::{Board, BoardView};
use crate::color::Accent;
use crate::details::info_panel;
use crate::finding::nth;
use crate::geometry::{less, plus, times};
use crate::glyph::{keeps, lemma_extends, Face, GlyphCache};
use crate::lettering::{clamped, covers, covers_all, lemma_widths_stay, text_widths, widths_of};
use crate::menu::row_height;
use crate::overview::peek_preview;
use crate::paint::{dimmed, Bitmap, Framebuffer, Image, Pixel, Rgb};
use crate::rosters::{count_set, fitted, how_many, lemma_fitted_stays};
use crate::shell::{Overlay, PointerView, Shell, ShellView};
use crate::strip::lemma_strip_stays;
use crate::strokes::{
    lay, lemma_painted_stays, paint, painted, panel, panel_strokes, strokes, Row, RowView, Stroke,
    StrokeView,
};
use crate::tabs::first_said;
use crate::text::{copy_text, texts};
use crate::triage::{Engine, CHROME_DIM};

verus! {

/// What a frame shows that the window's state does not hold.
pub struct Scene {
    /// The sessions that the query of the list to jump to leaves.
    pub filtered: Vec<usize>,
    /// The engines, and the engines as the picker orders them with which of these are on this
    /// machine.
    pub engines: Vec<Engine>,
    pub ordered: Vec<Engine>,
    pub present: Vec<bool>,
    /// The machine that the daemon runs on, and whether the tunnel to it is up.
    pub machine_id: String,
    pub connected: bool,
    /// The lines of the matches in view of a search over all sessions.
    pub found: Vec<String>,
    /// Of the session that is selected in a list: the lines that scrolled away last, and the last
    /// ones of its screen.
    pub history: Vec<String>,
    pub tail: Vec<String>,
    /// The last lines of each session, the newest first.
    pub tails: Vec<Vec<String>>,
    /// Of the session whose tab is under the pointer: the lines that scrolled away last, and the
    /// last ones of its screen.
    pub hover_history: Vec<String>,
    pub hover_tail: Vec<String>,
    pub fg: Rgb,
    pub bg: Rgb,
    pub accents: Vec<Accent>,
    /// How many frames there were.
    pub frame: u64,
}

impl ShellView {
    /// The session whose last lines an overlay shows: the one that is selected in the triage list,
    /// or in the list of a machine's sessions.
    pub open spec fn previewed(self) -> Option<int> {
        match (self.overlay, self.hosts_host) {
            (Overlay::Peek, _) => nth(self.peek.shown, self.peek.sel as int),
            (Overlay::Hosts, Some(h)) => nth(self.board.on_host(h), self.hosts_sel as int),
            _ => None,
        }
    }
}

impl Shell {
    /// The session whose last lines an overlay shows.
    pub fn previewed(&self) -> (r: Option<usize>)
        ensures
            match r {
                Some(i) => self@.previewed() == Some(i as int),
                None => self@.previewed() is None,
            },
    {
        if self.overlay == Overlay::Peek {
            if self.peek.sel < self.peek.shown.len() {
                return Some(self.peek.shown[self.peek.sel]);
            }
            return None;
        }
        if self.overlay == Overlay::Hosts {
            if let Some(h) = &self.hosts_host {
                let list = self.board.host_session_indices(h.as_str());
                if self.hosts_sel < list.len() {
                    return Some(list[self.hosts_sel]);
                }
            }
        }
        None
    }
}

impl BoardView {
    /// With what is shown of the sessions noted, by the length of the scrollback and a signature of
    /// the screen.
    pub open spec fn drawn(self, shown: Seq<(usize, u64)>) -> BoardView {
        BoardView {
            slots: Seq::new(
                self.slots.len(),
                |i: int|
                    Slot { drawn_len: shown[i].0, drawn_sig: shown[i].1, ..self.slots[i] },
            ),
            ..self
        }
    }
}

impl ShellView {
    /// With all sessions sampled and what is shown of them noted.
    #[verifier::opaque]
    pub open spec fn sampled(self, shown: Seq<(usize, u64)>, now: u64) -> ShellView {
        ShellView {
            board: self.board.pulsed(now).drawn(shown),
            live_busy: how_many(self.board.busy_mask(now)) > 0,
            ..self
        }
    }

    /// What a list over the grid is painted of.
    pub open spec fn listing(self, r: Seq<RowView>) -> Seq<StrokeView> {
        panel(self.metrics, self.board.focus, r)
    }

    /// With the lists of the open overlay as they are shown.
    #[verifier::opaque]
    pub open spec fn overlay_kept(self, now: u64) -> ShellView {
        match self.overlay {
            Overlay::Fleet => ShellView { fleet: self.fleet.refreshed(), ..self },
            Overlay::Hosts => self.hosts_kept(),
            Overlay::Peek => self.peek_refreshed(now),
            Overlay::FleetGrid => self.grid_kept(),
            Overlay::CommandPalette => ShellView { cmd: self.cmd.refreshed(), ..self },
            _ => self,
        }
    }

    /// What the selected session of a machine is doing, as far as it fits.
    pub open spec fn host_preview(
        self,
        m: Map<u64, Bitmap>,
        tail: Seq<Seq<char>>,
    ) -> Option<Seq<char>> {
        match first_said(tail) {
            Some(t) => Some(
                fitted(m, t, self.metrics.font_px, Shell::preview_room(self.metrics)),
            ),
            None => None,
        }
    }

    /// The lines of the list of machines, or of the sessions of one.
    pub open spec fn hosts_rows(
        self,
        m: Map<u64, Bitmap>,
        tail: Seq<Seq<char>>,
        now: u64,
    ) -> Seq<RowView> {
        match self.hosts_host {
            Some(h) => self.host_panel(h, self.host_preview(m, tail), now),
            None => self.hosts_panel(),
        }
    }

    /// What the open overlay is painted of, given the glyphs there are.
    #[verifier::opaque]
    pub open spec fn overlay_strokes(
        self,
        m: Map<u64, Bitmap>,
        scene: Scene,
        busy: Seq<bool>,
        now: u64,
    ) -> Seq<StrokeView> {
        match self.overlay {
            Overlay::Closed => Seq::empty(),
            Overlay::Palette => self.listing(self.jump_panel(scene.filtered@, now)),
            Overlay::NewSession => self.listing(
                self.new_session_panel(scene.ordered@, scene.present@),
            ),
            Overlay::RemoteAttach => self.listing(self.remote_panel(scene.engines@)),
            Overlay::Find => self.find_panel(),
            Overlay::FleetSearch => self.listing(
                self.hunt.panel(self.board.tabs, texts(scene.found@), self.metrics),
            ),
            Overlay::Fleet => self.listing(
                self.fleet.refreshed().panel(scene.machine_id@, scene.connected, self.selected),
            ),
            Overlay::Hosts => self.listing(self.hosts_rows(m, texts(scene.tail@), now)),
            Overlay::Help => self.listing(self.help_panel()),
            Overlay::Info => self.listing(info_panel(self.board, now)),
            Overlay::Rename => self.rename_panel(),
            Overlay::Broadcast => self.listing(self.cast_panel()),
            Overlay::Peek => {
                let s = self.peek_refreshed(now);
                s.peek_panel(
                    widths_of(m, s.peek_segs(), s.metrics.font_px),
                    peek_preview(texts(scene.history@), texts(scene.tail@)),
                    now,
                )
            },
            Overlay::FleetGrid => self.grid_kept().grid_panel(busy, scene.tails@, scene.fg, now),
            Overlay::CommandPalette => self.listing(self.cmd.refreshed().panel()),
        }
    }

    /// Whether the glyphs are there that the layout of the open overlay goes by.
    #[verifier::opaque]
    pub open spec fn overlay_inked(self, m: Map<u64, Bitmap>, scene: Scene, now: u64) -> bool {
        match self.overlay {
            Overlay::Peek => covers_all(
                m,
                self.peek_refreshed(now).peek_segs(),
                self.peek_refreshed(now).metrics.font_px,
            ),
            Overlay::Hosts => first_said(texts(scene.tail@)) matches Some(t) ==> covers(
                m,
                t,
                self.metrics.font_px,
            ),
            _ => true,
        }
    }

    /// Whether a scene belongs to the sessions there are.
    pub open spec fn fits(self, scene: Scene) -> bool {
        &&& forall|k: int|
            0 <= k < scene.filtered@.len() ==> #[trigger] scene.filtered@[k]
                < self.board.tabs.len()
        &&& scene.ordered@.len() + 4 <= usize::MAX
        &&& scene.engines@.len() + 4 <= usize::MAX
    }
}

/// What more glyphs in the cache change of an overlay whose own are all there: nothing.
proof fn lemma_overlay_stays(
    s: ShellView,
    m: Map<u64, Bitmap>,
    n: Map<u64, Bitmap>,
    scene: Scene,
    busy: Seq<bool>,
    now: u64,
)
    requires
        s.overlay_inked(m, scene, now),
        keeps(m, n),
    ensures
        s.overlay_inked(n, scene, now),
        s.overlay_strokes(m, scene, busy, now) == s.overlay_strokes(n, scene, busy, now),
{
    reveal(ShellView::overlay_inked);
    reveal(ShellView::overlay_strokes);
    match s.overlay {
        Overlay::Peek => {
            let p = s.peek_refreshed(now);
            lemma_widths_stay(m, n, p.peek_segs(), p.metrics.font_px);
        },
        Overlay::Hosts => {
            match first_said(texts(scene.tail@)) {
                Some(t) => {
                    lemma_fitted_stays(
                        m,
                        n,
                        t,
                        s.metrics.font_px,
                        Shell::preview_room(s.metrics),
                    );
                    crate::lettering::lemma_width_stays(m, n, t, s.metrics.font_px);
                },
                None => {},
            }
        },
        _ => {},
    }
}

impl Shell {
    /// Samples all sessions and notes what is shown of them. Returns which of them printed
    /// something.
    pub fn sample(&mut self, shown: &Vec<(usize, u64)>, now: u64) -> (busy: Vec<bool>)
        requires
            old(self)@.wf(),
            shown@.len() == old(self)@.board.tabs.len(),
        ensures
            final(self)@ == old(self)@.sampled(shown@, now),
            final(self)@.wf(),
            busy@ == old(self)@.board.busy_mask(now),
    {
        proof {
            reveal(ShellView::sampled);
            reveal(BoardView::pulsed);
        }
        let busy = self.board.pulse(now);
        let ghost mid = self.board@;
        let changed = detect_content_change(&mut self.board.slots, shown);
        proof {
            assert(self.board@ =~= mid.drawn(shown@));
        }
        self.live_busy = count_set(&busy) > 0;
        busy
    }

    fn list_strokes(&self, list: &Vec<Row>) -> (r: Vec<Stroke>)
        ensures
            strokes(r@) == self@.listing(crate::strokes::rows(list@)),
    {
        panel_strokes(&self.metrics, self.board.focus, list)
    }

    fn overlay_fleet(&mut self, scene: &Scene) -> (r: Vec<Stroke>)
        ensures
            final(self)@ == (ShellView { fleet: old(self)@.fleet.refreshed(), ..old(self)@ }),
            strokes(r@) == old(self)@.listing(
                old(self)@.fleet.refreshed().panel(
                    scene.machine_id@,
                    scene.connected,
                    old(self)@.selected,
                ),
            ),
    {
        let sel: usize = self.selected;
        let list = self.fleet.render(scene.machine_id.as_str(), scene.connected, sel);
        self.list_strokes(&list)
    }

    fn overlay_commands(&mut self) -> (r: Vec<Stroke>)
        ensures
            final(self)@ == (ShellView { cmd: old(self)@.cmd.refreshed(), ..old(self)@ }),
            strokes(r@) == old(self)@.listing(old(self)@.cmd.refreshed().panel()),
    {
        let list = self.cmd.render();
        self.list_strokes(&list)
    }

    fn overlay_hosts<F: Face>(
        &mut self,
        cache: &mut GlyphCache<F>,
        scene: &Scene,
        now: u64,
    ) -> (r: Vec<Stroke>)
        requires
            old(cache).wf(),
        ensures
            final(cache).extends(old(cache)),
            final(self)@ == old(self)@.hosts_kept(),
            first_said(texts(scene.tail@)) matches Some(t) ==> covers(
                final(cache)@,
                t,
                old(self)@.metrics.font_px,
            ),
            strokes(r@) == old(self)@.listing(
                old(self)@.hosts_rows(final(cache)@, texts(scene.tail@), now),
            ),
    {
        let list = self.render_hosts(cache, &scene.tail, now);
        self.list_strokes(&list)
    }

    fn overlay_plain(&self, scene: &Scene, now: u64) -> (r: Vec<Stroke>)
        requires
            self@.wf(),
            self@.fits(*scene),
            !(self@.overlay is Fleet || self@.overlay is Hosts || self@.overlay is Peek
                || self@.overlay is FleetGrid || self@.overlay is CommandPalette),
        ensures
            forall|m: Map<u64, Bitmap>, busy: Seq<bool>|
                strokes(r@) == #[trigger] self@.overlay_strokes(m, *scene, busy, now),
    {
        proof {
            reveal(ShellView::overlay_strokes);
        }
        match self.overlay {
            Overlay::Palette => self.list_strokes(&self.render_palette(&scene.filtered, now)),
            Overlay::NewSession => self.list_strokes(
                &self.render_new_session(&scene.ordered, &scene.present),
            ),
            Overlay::RemoteAttach => self.list_strokes(&self.render_remote(&scene.engines)),
            Overlay::Find => self.render_find(),
            Overlay::FleetSearch => self.list_strokes(
                &self.hunt.render(&self.board.tabs, &scene.found, &self.metrics),
            ),
            Overlay::Help => self.list_strokes(&self.render_help()),
            Overlay::Info => self.list_strokes(&self.board.render_info(now)),
            Overlay::Rename => self.render_rename(),
            Overlay::Broadcast => self.list_strokes(&self.render_broadcast()),
            _ => {
                let none: Vec<Stroke> = Vec::new();
                proof {
                    assert(strokes(none@) =~= Seq::empty());
                }
                none
            },
        }
    }

    /// What the open overlay is painted of.
    pub fn render_overlay<F: Face>(
        &mut self,
        cache: &mut GlyphCache<F>,
        scene: &Scene,
        busy: &Vec<bool>,
        now: u64,
    ) -> (r: Vec<Stroke>)
        requires
            old(self)@.wf(),
            old(self)@.fits(*scene),
            old(cache).wf(),
        ensures
            final(cache).extends(old(cache)),
            final(self)@ == old(self)@.overlay_kept(now),
            final(self)@.wf(),
            old(self)@.overlay_inked(final(cache)@, *scene, now),
            strokes(r@) == old(self)@.overlay_strokes(final(cache)@, *scene, busy@, now),
    {
        proof {
            reveal(ShellView::overlay_kept);
            reveal(ShellView::overlay_inked);
        }
        match self.overlay {
            Overlay::Fleet => {
                proof {
                    reveal(ShellView::overlay_strokes);
                }
                self.overlay_fleet(scene)
            },
            Overlay::Hosts => {
                proof {
                    reveal(ShellView::overlay_strokes);
                }
                self.overlay_hosts(cache, scene, now)
            },
            Overlay::Peek => {
                proof {
                    reveal(ShellView::overlay_strokes);
                }
                self.render_peek(cache, &scene.history, &scene.tail, now)
            },
            Overlay::FleetGrid => {
                proof {
                    reveal(ShellView::overlay_strokes);
                }
                self.render_fleet_grid(busy, &scene.tails, scene.fg, now)
            },
            Overlay::CommandPalette => {
                proof {
                    reveal(ShellView::overlay_strokes);
                }
                self.overlay_commands()
            },
            _ => self.overlay_plain(scene, now),
        }
    }
}

/// What a window without a session says.
pub open spec fn empty_hint(chord: Seq<char>) -> Seq<char> {
    "no sessions ·  Cmd+T  new tab   "@ + chord + " n  new   "@ + chord + " r  attach remote   "@
        + chord
        + " /  palette "@
}

fn hint_text(chord: &str) -> (r: String)
    ensures
        r@ == empty_hint(chord@),
{
    let mut s = copy_text("no sessions ·  Cmd+T  new tab   ");
    s.append(chord);
    s.append(" n  new   ");
    s.append(chord);
    s.append(" r  attach remote   ");
    s.append(chord);
    s.append(" /  palette ");
    s
}

impl BoardView {
    /// With the active view back at the live screen, unless it is held in the scrollback.
    pub open spec fn followed(self) -> BoardView {
        if self.active < self.tabs.len() && !self.tabs[self.active as int].scrolled
            && self.tabs[self.active as int].offset > 0 {
            self.at_bottom()
        } else {
            self
        }
    }
}

impl Board {
    /// Brings the active view back to the live screen, unless it is held in the scrollback.
    pub fn follow(&mut self)
        ensures
            final(self)@ == old(self)@.followed(),
            final(self)@.wf() == old(self)@.wf(),
    {
        let i: usize = self.active;
        if i < self.tabs.len() {
            proof {
                assert(self@.tabs[i as int] == self.tabs@[i as int]@);
            }
            if !self.tabs[i].scrolled && self.tabs[i].offset > 0 {
                self.scroll_to_bottom();
            }
        }
    }
}

impl ShellView {
    /// How many rows and columns the active session is to have, where that is not what it has.
    pub open spec fn resize_due(self) -> Option<(int, int)> {
        let (top, bottom) = self.bars();
        let (rows, cols) = self.metrics.grid_size(top, bottom);
        let size = (
            if rows < 1 {
                1
            } else {
                rows
            },
            if cols < 1 {
                1
            } else {
                cols
            },
        );
        let b = self.board;
        if b.active < b.tabs.len() && (b.tabs[b.active as int].lines != size.0
            || b.tabs[b.active as int].cols != size.1) {
            Some(size)
        } else {
            None
        }
    }

    /// Where the hint of a window without a session stands.
    pub open spec fn hint_row(self) -> int {
        let (top, bottom) = self.bars();
        clamped(
            top + clamped(
                (self.metrics.grid_size(top, bottom).0 / 2) * self.metrics.cell_h,
            ),
        )
    }

    /// What a window without a session shows, given how wide the hint is: the hint, in the middle
    /// of its own ground.
    pub open spec fn empty_strokes(self, w: usize, bg: Rgb) -> Seq<StrokeView> {
        let m = self.metrics;
        let y = self.hint_row();
        let top = less(y, m.font_px as int);
        seq![
            StrokeView::Fill(
                0,
                top as usize,
                m.width,
                less(clamped(y + m.font_px), top) as usize,
                bg,
            ),
            StrokeView::Text(
                empty_hint(self.prefix.chord),
                (less(m.width as int, w as int) / 2) as usize,
                y as usize,
                CHROME_DIM,
            ),
        ]
    }

    /// What the bars are painted of, given the glyphs there are; without bars nothing.
    pub open spec fn bar_strokes(
        self,
        m: Map<u64, Bitmap>,
        scene: Scene,
        busy: Seq<bool>,
        now: u64,
    ) -> Seq<StrokeView> {
        if self.board.focus {
            Seq::empty()
        } else {
            let s = self.board.strip(
                m,
                self.metrics.font_px,
                busy,
                scene.frame,
                scene.accents@,
                scene.engines@,
            );
            let noted = self.strip_noted(s);
            self.strip_panel(s, busy, now) + noted.status_panel(
                widths_of(m, noted.status_texts(), noted.metrics.font_px),
                scene.connected,
                now,
            )
        }
    }

    /// With the places of the bar noted and an old message dropped.
    pub open spec fn bars_noted(
        self,
        m: Map<u64, Bitmap>,
        scene: Scene,
        busy: Seq<bool>,
        now: u64,
    ) -> ShellView {
        if self.board.focus {
            self.pointing(PointerView { new_tab: None, ..self.mouse })
        } else {
            let s = self.board.strip(
                m,
                self.metrics.font_px,
                busy,
                scene.frame,
                scene.accents@,
                scene.engines@,
            );
            let noted = self.strip_noted(s);
            noted.on(noted.board.flash_kept(now))
        }
    }

    /// Whether the glyphs are there that the layout of the bars goes by.
    pub open spec fn bars_inked(
        self,
        m: Map<u64, Bitmap>,
        busy: Seq<bool>,
        frame: u64,
    ) -> bool {
        self.board.focus || (self.board.strip_inked(m, self.metrics.font_px, busy, frame)
            && covers_all(m, self.status_texts(), self.metrics.font_px))
    }

    /// What the banner of copy mode is painted of, given the glyphs there are.
    pub open spec fn banner_strokes(self, m: Map<u64, Bitmap>) -> Seq<StrokeView> {
        if self.copy.on {
            self.banner_panel(widths_of(m, seq![self.copy.banner()], self.metrics.font_px)[0])
        } else {
            Seq::empty()
        }
    }
}

/// What more glyphs in the cache change of bars whose own are all there: nothing.
proof fn lemma_bars_stay(
    s: ShellView,
    m: Map<u64, Bitmap>,
    n: Map<u64, Bitmap>,
    scene: Scene,
    busy: Seq<bool>,
    now: u64,
)
    requires
        s.bars_inked(m, busy, scene.frame),
        keeps(m, n),
    ensures
        s.bars_inked(n, busy, scene.frame),
        s.bar_strokes(m, scene, busy, now) == s.bar_strokes(n, scene, busy, now),
        s.bars_noted(m, scene, busy, now) == s.bars_noted(n, scene, busy, now),
{
    if !s.board.focus {
        lemma_strip_stays(
            s.board,
            m,
            n,
            s.metrics.font_px,
            busy,
            scene.frame,
            scene.accents@,
            scene.engines@,
        );
        lemma_widths_stay(m, n, s.status_texts(), s.metrics.font_px);
    }
}

impl Shell {
    /// How many rows and columns the active session is to have, where that is not what it has.
    pub fn resize_due(&self) -> (r: Option<(usize, usize)>)
        requires
            self@.metrics.cell_w > 0,
            self@.metrics.cell_h > 0,
        ensures
            match r {
                Some(s) => self@.resize_due() == Some((s.0 as int, s.1 as int)),
                None => self@.resize_due() is None,
            },
    {
        let (top, bottom) = self.grid_bars();
        let (rows, cols) = self.metrics.grid_cells(top, bottom);
        let rows: usize = if rows < 1 {
            1
        } else {
            rows
        };
        let cols: usize = if cols < 1 {
            1
        } else {
            cols
        };
        let i: usize = self.board.active;
        if i < self.board.tabs.len() {
            proof {
                assert(self@.board.tabs[i as int] == self.board.tabs@[i as int]@);
            }
            if self.board.tabs[i].lines as u64 != rows as u64 || self.board.tabs[i].cols != cols {
                return Some((rows, cols));
            }
        }
        None
    }

    /// What a window without a session is painted of.
    pub fn render_empty<F: Face>(&self, cache: &mut GlyphCache<F>, bg: Rgb) -> (r: Vec<Stroke>)
        requires
            self@.metrics.cell_w > 0,
            self@.metrics.cell_h > 0,
            old(cache).wf(),
        ensures
            final(cache).extends(old(cache)),
            covers_all(
                final(cache)@,
                seq![empty_hint(self@.prefix.chord)],
                self@.metrics.font_px,
            ),
            strokes(r@) == self@.empty_strokes(
                widths_of(
                    final(cache)@,
                    seq![empty_hint(self@.prefix.chord)],
                    self@.metrics.font_px,
                )[0],
                bg,
            ),
    {
        let m = &self.metrics;
        let (top, bottom) = self.grid_bars();
        let mut lines: Vec<String> = Vec::new();
        lines.push(hint_text(self.prefix.chord.as_str()));
        proof {
            assert(texts(lines@) =~= seq![empty_hint(self@.prefix.chord)]);
        }
        let w = text_widths(cache, &lines, m.font_px);
        let y: usize = plus(top, times(m.grid_cells(top, bottom).0 / 2, m.cell_h));
        let above: usize = y.saturating_sub(m.font_px as usize);
        let h: usize = plus(y, m.font_px as usize).saturating_sub(above);
        let mut out: Vec<Stroke> = Vec::new();
        lay(&mut out, Stroke::Fill(0, above, m.width, h, bg));
        lay(
            &mut out,
            Stroke::Text(
                hint_text(self.prefix.chord.as_str()),
                m.width.saturating_sub(w[0]) / 2,
                y,
                CHROME_DIM,
            ),
        );
        proof {
            assert(strokes(out@) =~= self@.empty_strokes(w@[0], bg));
        }
        out
    }

    fn render_bars<F: Face>(
        &mut self,
        cache: &mut GlyphCache<F>,
        scene: &Scene,
        busy: &Vec<bool>,
        now: u64,
    ) -> (r: Vec<Stroke>)
        requires
            old(self)@.wf(),
            old(cache).wf(),
        ensures
            final(cache).extends(old(cache)),
            final(self)@ == old(self)@.bars_noted(final(cache)@, *scene, busy@, now),
            final(self)@.wf(),
            old(self)@.bars_inked(final(cache)@, busy@, scene.frame),
            strokes(r@) == old(self)@.bar_strokes(final(cache)@, *scene, busy@, now),
    {
        if self.board.focus {
            self.mouse.new_tab = None;
            let none: Vec<Stroke> = Vec::new();
            proof {
                assert(strokes(none@) =~= Seq::empty());
            }
            return none;
        }
        let ghost c0 = *cache;
        let ghost was = self@;
        let mut out = self.render_strip(
            cache,
            busy,
            scene.frame,
            &scene.accents,
            &scene.engines,
            now,
        );
        let ghost c1 = *cache;
        let ghost front = strokes(out@);
        let mut more = self.render_status(cache, scene.connected, now);
        let ghost back = strokes(more@);
        proof {
            lemma_extends(c0, c1, *cache);
            lemma_strip_stays(
                was.board,
                c1@,
                cache@,
                was.metrics.font_px,
                busy@,
                scene.frame,
                scene.accents@,
                scene.engines@,
            );
        }
        out.append(&mut more);
        proof {
            assert(strokes(out@) =~= front + back);
        }
        out
    }

    /// What lies under an overlay, but for the grid: the bars, and the banner of copy mode.
    pub fn render_under<F: Face>(
        &mut self,
        cache: &mut GlyphCache<F>,
        scene: &Scene,
        busy: &Vec<bool>,
        now: u64,
    ) -> (r: Vec<Stroke>)
        requires
            old(self)@.wf(),
            old(cache).wf(),
        ensures
            final(cache).extends(old(cache)),
            final(self)@ == old(self)@.bars_noted(final(cache)@, *scene, busy@, now),
            final(self)@.wf(),
            old(self)@.bars_inked(final(cache)@, busy@, scene.frame),
            old(self)@.copy.on ==> covers_all(
                final(cache)@,
                seq![old(self)@.copy.banner()],
                old(self)@.metrics.font_px,
            ),
            strokes(r@) == old(self)@.bar_strokes(final(cache)@, *scene, busy@, now)
                + old(self)@.banner_strokes(final(cache)@),
    {
        let ghost was = self@;
        let ghost c0 = *cache;
        let mut out = self.render_bars(cache, scene, busy, now);
        let ghost c1 = *cache;
        if self.copy.on {
            let ghost front = strokes(out@);
            let mut more = self.render_banner(cache);
            let ghost back = strokes(more@);
            proof {
                lemma_extends(c0, c1, *cache);
                lemma_bars_stay(was, c1@, cache@, *scene, busy@, now);
            }
            out.append(&mut more);
            proof {
                assert(strokes(out@) =~= front + back);
            }
        } else {
            proof {
                assert(strokes(out@) =~= strokes(out@) + Seq::empty());
            }
        }
        out
    }
}

impl ShellView {
    /// The lines of the preview of the tab under the pointer, where there is one.
    pub open spec fn tip_due(self, scene: Scene) -> Option<Seq<Seq<char>>> {
        match self.board.hover {
            Some(i) => if i < self.board.tabs.len() {
                Some(
                    self.board.tip_lines(
                        i as int,
                        texts(scene.hover_history@),
                        texts(scene.hover_tail@),
                    ),
                )
            } else {
                None
            },
            None => None,
        }
    }

    /// What the preview is painted of, given the glyphs there are.
    pub open spec fn tip_strokes(self, m: Map<u64, Bitmap>, scene: Scene) -> Seq<StrokeView> {
        match self.tip_due(scene) {
            Some(lines) => self.tip_panel(lines, widths_of(m, lines, self.metrics.font_px)),
            None => Seq::empty(),
        }
    }

    /// With the place of the preview noted.
    pub open spec fn tip_placed(self, m: Map<u64, Bitmap>, scene: Scene) -> ShellView {
        match self.tip_due(scene) {
            Some(lines) => self.tip_noted(widths_of(m, lines, self.metrics.font_px)),
            None => self,
        }
    }

    /// What the context menu is painted of, where it is open.
    pub open spec fn menu_strokes(self) -> Seq<StrokeView> {
        match self.menu {
            Some(menu) => menu.panel(row_height(self.metrics.cell_h as int)),
            None => Seq::empty(),
        }
    }

    /// Whether there is a bar with the tabs.
    pub open spec fn barred(self) -> bool {
        !self.board.native && !self.board.focus
    }

    /// With what lies over the grid and the bars as it is shown.
    pub open spec fn over_kept(self, m: Map<u64, Bitmap>, scene: Scene, now: u64) -> ShellView {
        if self.barred() {
            self.overlay_kept(now).tip_placed(m, scene)
        } else {
            self.overlay_kept(now)
        }
    }

    /// What lies over the grid and the bars, given the glyphs there are: the open overlay, the
    /// preview of the tab under the pointer where there is a bar, and the context menu.
    pub open spec fn over_strokes(
        self,
        m: Map<u64, Bitmap>,
        scene: Scene,
        busy: Seq<bool>,
        now: u64,
    ) -> Seq<StrokeView> {
        self.overlay_strokes(m, scene, busy, now) + (if self.barred() {
            self.overlay_kept(now).tip_strokes(m, scene)
        } else {
            Seq::empty()
        }) + self.over_kept(m, scene, now).menu_strokes()
    }

    /// What the bar of a session's own window is painted of, if it has one, given the glyphs there
    /// are.
    pub open spec fn native_strokes(
        self,
        m: Map<u64, Bitmap>,
        busy: Seq<bool>,
        now: u64,
    ) -> Seq<StrokeView> {
        if self.status_bar {
            self.native_panel(
                widths_of(m, seq![self.chip()], self.metrics.font_px)[0],
                busy,
                now,
            )
        } else {
            Seq::empty()
        }
    }

    /// What stands in place of the grid where there is no session.
    pub open spec fn hint_strokes(self, m: Map<u64, Bitmap>, bg: Rgb) -> Seq<StrokeView> {
        if self.board.active < self.board.tabs.len() {
            Seq::empty()
        } else {
            self.empty_strokes(
                widths_of(m, seq![empty_hint(self.prefix.chord)], self.metrics.font_px)[0],
                bg,
            )
        }
    }

    /// What lies under an overlay, but for the grid, given the glyphs there are: the hint of a
    /// window without a session; and the bars with the banner of copy mode, or the bar of a
    /// session's own window.
    pub open spec fn under_strokes(
        self,
        m: Map<u64, Bitmap>,
        scene: Scene,
        busy: Seq<bool>,
        now: u64,
    ) -> Seq<StrokeView> {
        self.hint_strokes(m, scene.bg) + (if self.board.native {
            self.native_strokes(m, busy, now)
        } else {
            self.bar_strokes(m, scene, busy, now) + self.banner_strokes(m)
        })
    }

    /// With what lies under an overlay as it is shown.
    pub open spec fn under_kept(
        self,
        m: Map<u64, Bitmap>,
        scene: Scene,
        busy: Seq<bool>,
        now: u64,
    ) -> ShellView {
        if self.board.native {
            self
        } else {
            self.bars_noted(m, scene, busy, now)
        }
    }

    /// Whether the glyphs are there that the layout of what lies under an overlay goes by.
    pub open spec fn under_inked(
        self,
        m: Map<u64, Bitmap>,
        busy: Seq<bool>,
        frame: u64,
    ) -> bool {
        let px = self.metrics.font_px;
        &&& self.board.active >= self.board.tabs.len() ==> covers_all(
            m,
            seq![empty_hint(self.prefix.chord)],
            px,
        )
        &&& self.board.native && self.status_bar ==> covers_all(m, seq![self.chip()], px)
        &&& !self.board.native ==> self.bars_inked(m, busy, frame) && (self.copy.on ==> covers_all(
            m,
            seq![self.copy.banner()],
            px,
        ))
    }
}

/// What more glyphs in the cache change of what lies under an overlay and whose own are all there:
/// nothing.
proof fn lemma_under_stays(
    s: ShellView,
    m: Map<u64, Bitmap>,
    n: Map<u64, Bitmap>,
    scene: Scene,
    busy: Seq<bool>,
    now: u64,
)
    requires
        s.under_inked(m, busy, scene.frame),
        keeps(m, n),
    ensures
        s.under_strokes(m, scene, busy, now) == s.under_strokes(n, scene, busy, now),
        s.under_kept(m, scene, busy, now) == s.under_kept(n, scene, busy, now),
{
    let px = s.metrics.font_px;
    if s.board.active >= s.board.tabs.len() {
        lemma_widths_stay(m, n, seq![empty_hint(s.prefix.chord)], px);
    }
    if s.board.native {
        if s.status_bar {
            lemma_widths_stay(m, n, seq![s.chip()], px);
        }
    } else {
        lemma_bars_stay(s, m, n, scene, busy, now);
        if s.copy.on {
            lemma_widths_stay(m, n, seq![s.copy.banner()], px);
        }
    }
}

impl Shell {
    fn render_menu(&self) -> (r: Vec<Stroke>)
        ensures
            strokes(r@) == self@.menu_strokes(),
    {
        match &self.menu {
            Some(menu) => menu.render(self.metrics.cell_h),
            None => {
                let none: Vec<Stroke> = Vec::new();
                proof {
                    assert(strokes(none@) =~= Seq::empty());
                }
                none
            },
        }
    }

    fn render_tip<F: Face>(&mut self, cache: &mut GlyphCache<F>, scene: &Scene) -> (r: Vec<Stroke>)
        requires
            old(cache).wf(),
        ensures
            final(cache).extends(old(cache)),
            final(self)@ == old(self)@.tip_placed(final(cache)@, *scene),
            final(self)@.wf() == old(self)@.wf(),
            strokes(r@) == old(self)@.tip_strokes(final(cache)@, *scene),
    {
        let out = self.render_tooltip(cache, &scene.hover_history, &scene.hover_tail);
        proof {
            if out@.len() == 0 {
                assert(strokes(out@) =~= Seq::empty());
            }
        }
        out
    }

    /// What lies over the grid and the bars: the open overlay, the preview of the tab under the
    /// pointer where there is a bar, and the context menu.
    pub fn render_over<F: Face>(
        &mut self,
        cache: &mut GlyphCache<F>,
        scene: &Scene,
        busy: &Vec<bool>,
        now: u64,
    ) -> (r: Vec<Stroke>)
        requires
            old(self)@.wf(),
            old(self)@.fits(*scene),
            old(cache).wf(),
        ensures
            final(cache).extends(old(cache)),
            final(self)@.wf(),
            final(self)@ == old(self)@.over_kept(final(cache)@, *scene, now),
            strokes(r@) == old(self)@.over_strokes(final(cache)@, *scene, busy@, now),
    {
        let ghost was = self@;
        let ghost c0 = *cache;
        let barred = !self.board.native && !self.board.focus;
        let mut out = self.render_overlay(cache, scene, busy, now);
        let ghost c1 = *cache;
        let ghost front = strokes(out@);
        if barred {
            let mut more = self.render_tip(cache, scene);
            let ghost back = strokes(more@);
            proof {
                lemma_extends(c0, c1, *cache);
                lemma_overlay_stays(was, c1@, cache@, *scene, busy@, now);
            }
            out.append(&mut more);
            proof {
                assert(strokes(out@) =~= front + back);
            }
        } else {
            proof {
                assert(front =~= front + Seq::empty());
            }
        }
        let ghost mid = strokes(out@);
        let mut last = self.render_menu();
        let ghost end = strokes(last@);
        out.append(&mut last);
        proof {
            assert(strokes(out@) =~= mid + end);
        }
        out
    }

    /// What lies under an overlay in a session's own window, but for the grid: its bar, if it has
    /// one.
    pub fn render_native_under<F: Face>(
        &self,
        cache: &mut GlyphCache<F>,
        busy: &Vec<bool>,
        now: u64,
    ) -> (r: Vec<Stroke>)
        requires
            self@.wf(),
            old(cache).wf(),
        ensures
            final(cache).extends(old(cache)),
            self@.status_bar ==> covers_all(
                final(cache)@,
                seq![self@.chip()],
                self@.metrics.font_px,
            ),
            strokes(r@) == self@.native_strokes(final(cache)@, busy@, now),
    {
        if self.status_bar {
            self.draw_native_status(cache, busy, now)
        } else {
            let none: Vec<Stroke> = Vec::new();
            proof {
                assert(strokes(none@) =~= Seq::empty());
            }
            none
        }
    }
}

/// What a window is painted of.
pub struct Layers {
    /// Whether the grid of the active session is shown.
    pub grid: bool,
    /// What lies over the grid and under an overlay.
    pub under: Vec<Stroke>,
    /// What lies over both.
    pub over: Vec<Stroke>,
    /// Whether what lies under an overlay is darkened.
    pub dim: bool,
}

impl Shell {
    fn render_beneath<F: Face>(
        &mut self,
        cache: &mut GlyphCache<F>,
        scene: &Scene,
        busy: &Vec<bool>,
        now: u64,
    ) -> (r: Vec<Stroke>)
        requires
            old(self)@.wf(),
            old(self)@.metrics.cell_w > 0,
            old(self)@.metrics.cell_h > 0,
            old(cache).wf(),
        ensures
            final(cache).extends(old(cache)),
            final(self)@ == old(self)@.under_kept(final(cache)@, *scene, busy@, now),
            final(self)@.wf(),
            old(self)@.under_inked(final(cache)@, busy@, scene.frame),
            strokes(r@) == old(self)@.under_strokes(final(cache)@, *scene, busy@, now),
    {
        let ghost was = self@;
        let ghost c0 = *cache;
        let mut out: Vec<Stroke> = Vec::new();
        if self.board.active >= self.board.tabs.len() {
            out = self.render_empty(cache, scene.bg);
        } else {
            proof {
                assert(strokes(out@) =~= Seq::empty());
            }
        }
        let ghost c1 = *cache;
        let ghost front = strokes(out@);
        let mut more = if self.board.native {
            self.render_native_under(cache, busy, now)
        } else {
            self.render_under(cache, scene, busy, now)
        };
        let ghost back = strokes(more@);
        proof {
            lemma_extends(c0, c1, *cache);
            if was.board.active >= was.board.tabs.len() {
                lemma_widths_stay(
                    c1@,
                    cache@,
                    seq![empty_hint(was.prefix.chord)],
                    was.metrics.font_px,
                );
            }
        }
        out.append(&mut more);
        proof {
            assert(strokes(out@) =~= front + back);
        }
        out
    }

    /// What a window is painted of: the grid of the active session, or a hint where there is none;
    /// the bars, or the bar of a session's own window; and in the window that has the focus what is
    /// open over them, with what lies under an overlay darkened.
    pub fn render_layers<F: Face>(
        &mut self,
        cache: &mut GlyphCache<F>,
        scene: &Scene,
        busy: &Vec<bool>,
        focused: bool,
        now: u64,
    ) -> (r: Layers)
        requires
            old(self)@.wf(),
            old(self)@.fits(*scene),
            old(self)@.metrics.cell_w > 0,
            old(self)@.metrics.cell_h > 0,
            old(cache).wf(),
        ensures
            final(cache).extends(old(cache)),
            final(self)@.wf(),
            r.grid == (old(self)@.board.active < old(self)@.board.tabs.len()),
            r.dim == (focused && old(self)@.overlay != Overlay::Closed),
            strokes(r.under@) == old(self)@.under_strokes(final(cache)@, *scene, busy@, now),
            ({
                let s = old(self)@.under_kept(final(cache)@, *scene, busy@, now);
                &&& strokes(r.over@) == if focused {
                    s.over_strokes(final(cache)@, *scene, busy@, now)
                } else {
                    Seq::empty()
                }
                &&& final(self)@ == if focused {
                    s.over_kept(final(cache)@, *scene, now)
                } else {
                    s
                }
            }),
    {
        let ghost was = self@;
        let ghost c0 = *cache;
        let grid = self.board.active < self.board.tabs.len();
        let dim = focused && self.overlay != Overlay::Closed;
        let under = self.render_beneath(cache, scene, busy, now);
        let ghost c1 = *cache;
        let mut over: Vec<Stroke> = Vec::new();
        if focused {
            over = self.render_over(cache, scene, busy, now);
        } else {
            proof {
                assert(strokes(over@) =~= Seq::empty());
            }
        }
        proof {
            lemma_extends(c0, c1, *cache);
            lemma_under_stays(was, c1@, cache@, *scene, busy@, now);
        }
        Layers { grid, under, over, dim }
    }
}

/// The image with what lies under an overlay painted, darkened where an overlay is open, and with
/// what lies over it painted.
pub open spec fn layered(
    img: Image,
    m: Map<u64, Bitmap>,
    under: Seq<StrokeView>,
    over: Seq<StrokeView>,
    px: u32,
    dim: bool,
    levels: Seq<u8>,
) -> Image {
    let low = painted(img, m, under, px);
    let mid = if dim {
        low.shade(|x: int, y: int, c: Pixel| dimmed(c, levels))
    } else {
        low
    };
    painted(mid, m, over, px)
}

/// Paints what lies under an overlay, darkens it where an overlay is open, and paints what lies
/// over it.
pub fn paint_frame<F: Face>(
    buf: &mut Framebuffer,
    cache: &mut GlyphCache<F>,
    under: &Vec<Stroke>,
    over: &Vec<Stroke>,
    font_px: u32,
    dim: bool,
    levels: &[u8; 256],
)
    requires
        old(buf).wf(),
        old(cache).wf(),
    ensures
        final(buf).wf(),
        final(buf).width == old(buf).width,
        final(buf).height == old(buf).height,
        final(cache).extends(old(cache)),
        final(buf)@ == layered(
            old(buf)@,
            final(cache)@,
            strokes(under@),
            strokes(over@),
            font_px,
            dim,
            levels@,
        ),
{
    let ghost img = buf@;
    let ghost c0 = *cache;
    paint(buf, cache, under, font_px);
    let ghost c1 = *cache;
    if dim {
        buf.dim(levels);
    }
    paint(buf, cache, over, font_px);
    proof {
        lemma_extends(c0, c1, *cache);
        lemma_painted_stays(img, c1@, cache@, strokes(under@), font_px);
    }
}

/// In focus mode there are no bars: nothing is painted of them, they take no room, and the button
/// for a new tab is nowhere.
pub proof fn law_focus_hides_the_bars(
    s: ShellView,
    m: Map<u64, Bitmap>,
    scene: Scene,
    busy: Seq<bool>,
    now: u64,
)
    requires
        s.board.focus,
        !s.board.native,
    ensures
        s.bar_strokes(m, scene, busy, now).len() == 0,
        s.bars() == (0int, 0int),
        s.bars_noted(m, scene, busy, now).mouse.new_tab is None,
{
}

} // verus!
