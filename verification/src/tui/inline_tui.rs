//! One frame after another: output goes above the interface, and the
//! interface below it.

use super::inline_terminal::{Position, Size, Terminal, TerminalView};
use super::ui::Area;
use crate::text;
use vstd::prelude::*;

verus! {

/// Most lines of output that are kept to be shown again.
pub const HISTORY_LOG_CAPACITY: usize = 10_000;

/// The terminal, with the output that goes above the interface.
#[derive(Debug)]
pub struct InlineTui {
    pub terminal: Terminal,
    /// The output that is not shown yet.
    pub pending_history_lines: Vec<String>,
    /// The output of the session, to be shown again when the screen changes
    /// its size.
    pub history_log: Vec<String>,
    /// Whether all of the output is to be shown again.
    pub replay_full_history: bool,
}

#[verifier::ext_equal]
pub struct TuiView {
    pub terminal: TerminalView,
    pub pending: Seq<Seq<char>>,
    pub log: Seq<Seq<char>>,
    pub replay: bool,
}

impl View for InlineTui {
    type V = TuiView;

    open spec fn view(&self) -> TuiView {
        TuiView {
            terminal: self.terminal@,
            pending: text::views(self.pending_history_lines@),
            log: text::views(self.history_log@),
            replay: self.replay_full_history,
        }
    }
}

/// The last lines, as many as are kept.
pub open spec fn kept(lines: Seq<Seq<char>>) -> Seq<Seq<char>> {
    if lines.len() > HISTORY_LOG_CAPACITY {
        lines.skip(lines.len() - HISTORY_LOG_CAPACITY)
    } else {
        lines
    }
}

/// Whether one list of lines is the end of another.
pub open spec fn ends_with(all: Seq<Seq<char>>, end: Seq<Seq<char>>) -> bool {
    end.len() <= all.len() && all.skip(all.len() - end.len()) == end
}

/// What has to be done on the screen so that the interface fits.
#[derive(Debug, Clone, Copy, PartialEq, Eq)]
pub struct FitPlan {
    /// How many rows above the interface scroll up, and by how many rows, if
    /// any do.
    pub scroll: Option<(u16, u16)>,
    /// From where the screen is cleared, if it is.
    pub clear: Option<Position>,
}

/// The output that goes above the interface in a frame.
#[derive(Debug)]
pub enum Flush {
    Nothing,
    /// These lines.
    Lines(Vec<String>),
    /// All that is kept.
    Replay,
}

impl TuiView {
    /// Whether the output that is not shown yet is the end of what is kept,
    /// or the other way round where more came in than is kept.
    pub open spec fn wf(self) -> bool {
        &&& self.terminal.wf()
        &&& self.log.len() <= HISTORY_LOG_CAPACITY
        &&& ends_with(self.log, self.pending) || ends_with(self.pending, self.log)
    }

    /// More output came in.
    pub open spec fn queued(self, lines: Seq<Seq<char>>) -> TuiView {
        TuiView { pending: self.pending + lines, log: kept(self.log + lines), ..self }
    }

    /// A frame starts on a screen of the given size. Where that has changed,
    /// the screen is cleared and everything is shown again.
    pub open spec fn started(self, live: Size) -> TuiView {
        if live == self.terminal.screen {
            self
        } else {
            let cleared = TerminalView {
                cursor: (Position { x: 0, y: 0 }),
                history_rows: 0,
                ..self.terminal.invalidated()
            };
            TuiView {
                terminal: cleared.moved(
                    Area { x: 0, y: 0, width: live.width, height: 0 },
                ).invalidated(),
                pending: Seq::empty(),
                replay: true,
                ..self
            }
        }
    }
}

/// The rows of the interface on a screen, for the height that it wants.
pub open spec fn fitted_height(screen: Size, desired: u16) -> u16 {
    if desired < screen.height {
        desired
    } else {
        screen.height
    }
}

/// How far the interface reaches below the screen.
pub open spec fn overhang(area: Area, screen: Size, desired: u16) -> int {
    let height = fitted_height(screen, desired);
    let bottom = if area.y + height > u16::MAX {
        u16::MAX as int
    } else {
        area.y + height
    };
    if bottom > screen.height {
        bottom - screen.height
    } else {
        0
    }
}

/// Where the interface goes: it stays at its row unless it would reach below
/// the screen.
pub open spec fn fitted_area(area: Area, screen: Size, desired: u16) -> Area {
    let height = fitted_height(screen, desired);
    Area {
        x: area.x,
        y: if overhang(area, screen, desired) > 0 {
            (screen.height - height) as u16
        } else {
            area.y
        },
        width: screen.width,
        height,
    }
}

impl InlineTui {
    /// A terminal that no output has come for.
    pub fn new(terminal: Terminal) -> (r: Self)
        ensures
            r@ == (TuiView {
                terminal: terminal@,
                pending: Seq::empty(),
                log: Seq::empty(),
                replay: false,
            }),
            terminal@.wf() ==> r@.wf(),
    {
        let r = InlineTui {
            terminal,
            pending_history_lines: Vec::new(),
            history_log: Vec::new(),
            replay_full_history: false,
        };
        assert(r@.pending =~= Seq::empty());
        assert(r@.log =~= Seq::empty());
        assert(ends_with(r@.log, r@.pending)) by {
            assert(r@.log.skip(0) =~= r@.pending);
        }
        r
    }

    /// Takes more output. It is shown in the next frame, and kept to be
    /// shown again; what is kept is the end of it.
    pub fn queue_history_lines(&mut self, lines: Vec<String>)
        requires
            old(self)@.wf(),
        ensures
            final(self)@ == old(self)@.queued(text::views(lines@)),
            final(self)@.wf(),
    {
        let ghost pending = self@.pending;
        let ghost log = self@.log;
        let ghost new_lines = text::views(lines@);
        let mut i: usize = 0;
        assert(pending + new_lines.take(0) =~= pending);
        assert(log + new_lines.take(0) =~= log);
        while i < lines.len()
            invariant
                i <= lines@.len(),
                new_lines == text::views(lines@),
                self@ == (TuiView {
                    pending: pending + new_lines.take(i as int),
                    log: log + new_lines.take(i as int),
                    ..old(self)@
                }),
            decreases lines@.len() - i,
        {
            let ghost p = self.pending_history_lines@;
            let ghost l = self.history_log@;
            self.pending_history_lines.push(lines[i].clone());
            self.history_log.push(lines[i].clone());
            proof {
                let line = new_lines[i as int];
                assert(text::views(self.pending_history_lines@) =~= text::views(p).push(line));
                assert(text::views(self.history_log@) =~= text::views(l).push(line));
                assert((pending + new_lines.take(i as int)).push(line) =~= pending
                    + new_lines.take(i + 1));
                assert((log + new_lines.take(i as int)).push(line) =~= log + new_lines.take(i + 1));
            }
            i = i + 1;
        }
        assert(new_lines.take(i as int) =~= new_lines);
        let n = self.history_log.len();
        let ghost all = self.history_log@;
        if n > HISTORY_LOG_CAPACITY {
            let excess: usize = n - HISTORY_LOG_CAPACITY;
            let rest = self.history_log.split_off(excess);
            self.history_log = rest;
            assert(text::views(rest@) =~= text::views(all).skip(excess as int));
        }
        assert(self@.log =~= kept(log + new_lines));
        proof {
            lemma_queued_keeps_ends(old(self)@, new_lines);
        }
    }

    /// Starts a frame on a screen of the given size, and says whether the
    /// screen is to be cleared.
    pub fn start_frame(&mut self, live: Size) -> (changed: bool)
        requires
            old(self)@.wf(),
        ensures
            changed == (live != old(self)@.terminal.screen),
            final(self)@ == old(self)@.started(live),
            final(self)@.wf(),
    {
        let known = self.terminal.screen_size();
        if known.width == live.width && known.height == live.height {
            return false;
        }
        self.terminal.clear_visible_screen();
        self.terminal.set_viewport_area(Area { x: 0, y: 0, width: live.width, height: 0 });
        self.terminal.invalidate_viewport();
        self.pending_history_lines = Vec::new();
        self.replay_full_history = true;
        assert(self@.pending =~= Seq::empty());
        assert(ends_with(self@.log, self@.pending)) by {
            assert(self@.log.skip(self@.log.len() as int) =~= Seq::empty());
        }
        true
    }

    /// Makes the interface as high as it wants to be, or as the screen is,
    /// and says what has to be done on the screen for that: where the
    /// interface would reach below the screen, what is above scrolls up.
    pub fn fit_viewport_height(&mut self, screen: Size, desired_height: u16) -> (plan: FitPlan)
        requires
            old(self)@.wf(),
        ensures
            ({
                let area = old(self)@.terminal.area;
                let next = fitted_area(area, screen, desired_height);
                let over = overhang(area, screen, desired_height);
                &&& plan.scroll == (if over > 0 && area.y > 0 {
                    Some((area.y, over as u16))
                } else {
                    None
                })
                &&& plan.clear == (if next == area || area.width == 0 || area.height == 0 {
                    None
                } else {
                    Some(Position { x: area.x, y: area.y })
                })
                &&& final(self)@.terminal == (if next == area {
                    old(self)@.terminal
                } else if area.width == 0 || area.height == 0 {
                    old(self)@.terminal.moved(next)
                } else {
                    old(self)@.terminal.invalidated().moved(next)
                })
                &&& final(self)@ == (TuiView { terminal: final(self)@.terminal, ..old(self)@ })
            }),
            final(self)@.terminal.area == fitted_area(
                old(self)@.terminal.area,
                screen,
                desired_height,
            ),
            final(self)@.terminal.area.fits() ==> final(self)@.wf(),
    {
        let area = self.terminal.area();
        let height: u16 = if desired_height < screen.height {
            desired_height
        } else {
            screen.height
        };
        let bottom = area.y.saturating_add(height);
        let mut scroll: Option<(u16, u16)> = None;
        let mut y: u16 = area.y;
        if bottom > screen.height {
            if area.y > 0 {
                scroll = Some((area.y, bottom - screen.height));
            }
            y = screen.height - height;
        }
        let next = Area { x: area.x, y, width: screen.width, height };
        let mut clear: Option<Position> = None;
        if next != area {
            clear = self.terminal.clear();
            self.terminal.set_viewport_area(next);
        }
        FitPlan { scroll, clear }
    }

    /// The output that goes above the interface in this frame. What is not
    /// shown yet is handed out once.
    pub fn take_flush(&mut self) -> (r: Flush)
        requires
            old(self)@.wf(),
        ensures
            if old(self)@.replay {
                r == Flush::Replay && final(self)@ == old(self)@
            } else if old(self)@.pending.len() > 0 {
                &&& r matches Flush::Lines(lines) && text::views(lines@) == old(self)@.pending
                &&& final(self)@ == (TuiView { pending: Seq::empty(), ..old(self)@ })
            } else {
                r == Flush::Nothing && final(self)@ == old(self)@
            },
            final(self)@.wf(),
    {
        if self.replay_full_history {
            return Flush::Replay;
        }
        if self.pending_history_lines.len() == 0 {
            return Flush::Nothing;
        }
        let mut lines: Vec<String> = Vec::new();
        std::mem::swap(&mut lines, &mut self.pending_history_lines);
        assert(self@.pending =~= Seq::empty());
        assert(ends_with(self@.log, self@.pending)) by {
            assert(self@.log.skip(self@.log.len() as int) =~= Seq::empty());
        }
        Flush::Lines(lines)
    }

    /// Takes note that all that is kept was shown again.
    pub fn replayed(&mut self)
        requires
            old(self)@.wf(),
        ensures
            final(self)@ == (TuiView { pending: Seq::empty(), replay: false, ..old(self)@ }),
            final(self)@.wf(),
    {
        self.pending_history_lines = Vec::new();
        self.replay_full_history = false;
        assert(self@.pending =~= Seq::empty());
        assert(ends_with(self@.log, self@.pending)) by {
            assert(self@.log.skip(self@.log.len() as int) =~= Seq::empty());
        }
    }
}

proof fn lemma_queued_keeps_ends(t: TuiView, lines: Seq<Seq<char>>)
    requires
        t.wf(),
    ensures
        ends_with(t.queued(lines).log, t.queued(lines).pending) || ends_with(
            t.queued(lines).pending,
            t.queued(lines).log,
        ),
{
    let log = t.log + lines;
    let pending = t.pending + lines;
    let short = kept(log);
    if ends_with(t.log, t.pending) {
        assert(log.skip(log.len() - pending.len()) =~= pending) by {
            let k = t.log.len() - t.pending.len();
            assert(t.log.skip(k) == t.pending);
            assert forall|i: int| 0 <= i < pending.len() implies log[k + i] == pending[i] by {
                if i < t.pending.len() {
                    assert(t.log.skip(k)[i] == t.log[k + i]);
                }
            }
        }
        assert(ends_with(log, pending));
    } else {
        assert(pending.skip(pending.len() - log.len()) =~= log) by {
            let k = t.pending.len() - t.log.len();
            assert(t.pending.skip(k) == t.log);
            assert forall|i: int| 0 <= i < log.len() implies pending[k + i] == log[i] by {
                if i < t.log.len() {
                    assert(t.pending.skip(k)[i] == t.pending[k + i]);
                }
            }
        }
        assert(ends_with(pending, log));
    }
    lemma_end_of_end(log, pending);
}

proof fn lemma_end_of_end(log: Seq<Seq<char>>, pending: Seq<Seq<char>>)
    requires
        ends_with(log, pending) || ends_with(pending, log),
    ensures
        ends_with(kept(log), pending) || ends_with(pending, kept(log)),
{
    let short = kept(log);
    let cut = log.len() - short.len();
    assert forall|i: int| 0 <= i < short.len() implies short[i] == log[cut + i] by {}
    if pending.len() <= short.len() {
        let k = short.len() - pending.len();
        assert forall|i: int| 0 <= i < pending.len() implies short[k + i] == pending[i] by {
            if ends_with(log, pending) {
                assert(log.skip(log.len() - pending.len())[i] == log[log.len() - pending.len()
                    + i]);
            } else {
                assert(pending.skip(pending.len() - log.len())[i] == pending[pending.len()
                    - log.len() + i]);
            }
        }
        assert(short.skip(k) =~= pending);
    } else {
        let k = pending.len() - short.len();
        assert forall|i: int| 0 <= i < short.len() implies pending[k + i] == short[i] by {
            if ends_with(log, pending) {
                let d = log.len() - pending.len();
                assert(log.skip(d)[k + i] == log[d + k + i]);
            } else {
                let d = pending.len() - log.len();
                assert(pending.skip(d)[cut + i] == pending[d + cut + i]);
            }
        }
        assert(pending.skip(k) =~= short);
    }
}

/// The interface lies on the screen once it was fitted, however high it
/// wants to be, and what stood at its row is only moved up.
pub proof fn interface_stays_on_the_screen(area: Area, screen: Size, desired: u16)
    requires
        screen.height < u16::MAX,
    ensures
        ({
            let next = fitted_area(area, screen, desired);
            &&& next.y + next.height <= screen.height
            &&& next.width == screen.width
            &&& next.height <= desired
            &&& next.y <= area.y
        }),
{
}

/// Output that came in since the last frame is shown in the next one, and
/// once, whether or not the screen changes its size in between.
pub proof fn output_is_shown_once(t: TuiView, lines: Seq<Seq<char>>, live: Size)
    requires
        t.wf(),
        !t.replay,
        t.pending.len() == 0,
        lines.len() <= HISTORY_LOG_CAPACITY,
    ensures
        ({
            let next = t.queued(lines).started(live);
            &&& live == t.terminal.screen ==> next.pending == lines && !next.replay
            &&& live != t.terminal.screen ==> next.replay && next.pending.len() == 0 && ends_with(
                next.log,
                lines,
            )
        }),
{
    let all = t.log + lines;
    assert(t.pending + lines =~= lines);
    let log = t.queued(lines).log;
    assert(log.skip(log.len() - lines.len()) =~= lines);
}

} // verus!
