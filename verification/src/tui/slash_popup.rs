//! The list of commands that appears under the input while a command is
//! being typed.

use crate::api;
use crate::commands;
use crate::commands::CommandEntry;
use crate::text;
use vstd::prelude::*;

verus! {

/// Most commands that are visible at once.
pub const MAX_VISIBLE_ROWS: usize = 6;

/// The list, what is highlighted in it, and which part of it is visible.
#[derive(Debug)]
pub struct SlashPopup {
    pub visible: bool,
    pub matches: Vec<CommandEntry>,
    /// The highlighted command.
    pub cursor: usize,
    /// The first visible command.
    pub scroll_top: usize,
    /// The input that the user closed the list on.
    pub dismissed_for: Option<String>,
}

#[verifier::ext_equal]
pub struct PopupView {
    pub visible: bool,
    pub matches: Seq<CommandEntry>,
    pub cursor: nat,
    pub scroll_top: nat,
    pub dismissed: Option<Seq<char>>,
}

impl View for SlashPopup {
    type V = PopupView;

    open spec fn view(&self) -> PopupView {
        PopupView {
            visible: self.visible,
            matches: self.matches@,
            cursor: self.cursor as nat,
            scroll_top: self.scroll_top as nat,
            dismissed: api::option_view(self.dismissed_for),
        }
    }
}

/// Whether an input is a command being typed: one line that starts with a
/// slash.
pub open spec fn is_slash(input: Seq<char>) -> bool {
    !input.contains('\n') && input.len() > 0 && input[0] == '/'
}

/// The commands whose name starts with the given text.
pub open spec fn commands_with(prefix: Seq<char>) -> Seq<CommandEntry> {
    commands::catalog().filter(|e: CommandEntry| text::has_prefix(e.name@, prefix))
}

impl PopupView {
    pub open spec fn empty() -> PopupView {
        PopupView {
            visible: false,
            matches: Seq::empty(),
            cursor: 0,
            scroll_top: 0,
            dismissed: None,
        }
    }

    /// The list closed, with what it remembers of the user's closing it.
    pub open spec fn closed(dismissed: Option<Seq<char>>) -> PopupView {
        PopupView { dismissed, ..PopupView::empty() }
    }

    /// How many commands are visible at once.
    pub open spec fn rows(self) -> nat {
        if self.matches.len() < MAX_VISIBLE_ROWS {
            self.matches.len()
        } else {
            MAX_VISIBLE_ROWS as nat
        }
    }

    /// The list scrolled just as far as the highlighted command needs.
    pub open spec fn scrolled(self) -> PopupView {
        PopupView {
            scroll_top: if self.rows() == 0 {
                0
            } else if self.cursor < self.scroll_top {
                self.cursor
            } else if self.cursor >= self.scroll_top + self.rows() {
                (self.cursor + 1 - self.rows()) as nat
            } else {
                self.scroll_top
            },
            ..self
        }
    }

    /// Whether the list stays closed: the user closed it, and has only typed
    /// on or deleted since.
    pub open spec fn stays_dismissed(self, input: Seq<char>) -> bool {
        input.len() > 0 && self.dismissed is Some && (text::has_prefix(input, self.dismissed->0)
            || text::has_prefix(self.dismissed->0, input))
    }

    /// The list for an input, given the input in lower case.
    pub open spec fn synced(self, input: Seq<char>, lower: Seq<char>) -> PopupView {
        if self.stays_dismissed(input) {
            self
        } else if !is_slash(input) || commands_with(lower).len() == 0 {
            PopupView::empty()
        } else {
            let matches = commands_with(lower);
            PopupView {
                visible: true,
                matches,
                cursor: if self.cursor >= matches.len() {
                    0
                } else {
                    self.cursor
                },
                dismissed: None,
                ..self
            }.scrolled()
        }
    }

    /// The list with the highlight one up; from the first command it goes to
    /// the last.
    pub open spec fn up(self) -> PopupView {
        if self.matches.len() == 0 {
            self
        } else {
            PopupView {
                cursor: if self.cursor == 0 {
                    (self.matches.len() - 1) as nat
                } else {
                    (self.cursor - 1) as nat
                },
                ..self
            }.scrolled()
        }
    }

    /// The list with the highlight one down; from the last command it goes
    /// to the first.
    pub open spec fn down(self) -> PopupView {
        if self.matches.len() == 0 {
            self
        } else {
            PopupView {
                cursor: if self.cursor + 1 >= self.matches.len() {
                    0
                } else {
                    self.cursor + 1
                },
                ..self
            }.scrolled()
        }
    }

    /// What holds of the list: it is empty exactly where it is hidden, a
    /// command of it is highlighted, and the highlighted one is in sight.
    pub open spec fn wf(self) -> bool {
        &&& self.visible == (self.matches.len() > 0)
        &&& if self.matches.len() == 0 {
            self.cursor == 0 && self.scroll_top == 0
        } else {
            self.cursor < self.matches.len() && self.scroll_top <= self.cursor < self.scroll_top
                + MAX_VISIBLE_ROWS
        }
    }

    /// The list after some moves down.
    pub open spec fn downs(self, n: nat) -> PopupView
        decreases n,
    {
        if n == 0 {
            self
        } else {
            self.downs((n - 1) as nat).down()
        }
    }

    /// The list after some moves up.
    pub open spec fn ups(self, n: nat) -> PopupView
        decreases n,
    {
        if n == 0 {
            self
        } else {
            self.ups((n - 1) as nat).up()
        }
    }
}

/// The commands whose name starts with the given text.
pub fn matching_commands(prefix: &str) -> (r: Vec<CommandEntry>)
    ensures
        r@ == commands_with(prefix@),
{
    let all = commands::command_catalog();
    let mut r: Vec<CommandEntry> = Vec::new();
    let mut i: usize = 0;
    assert(commands::catalog().take(0) =~= Seq::<CommandEntry>::empty());
    proof {
        reveal(Seq::filter);
    }
    while i < all.len()
        invariant
            all@ == commands::catalog(),
            i <= all@.len(),
            r@ == commands::catalog().take(i as int).filter(
                |e: CommandEntry| text::has_prefix(e.name@, prefix@),
            ),
        decreases all@.len() - i,
    {
        proof {
            reveal(Seq::filter);
            assert(commands::catalog().take(i + 1).drop_last() =~= commands::catalog().take(
                i as int,
            ));
            assert(commands::catalog().take(i + 1).last() == all@[i as int]);
        }
        if text::starts_with(all[i].name, prefix) {
            r.push(all[i]);
        }
        i = i + 1;
    }
    assert(commands::catalog().take(i as int) =~= commands::catalog());
    r
}

/// The commands whose name starts with the given text, in whatever case its
/// letters are.
pub fn filter_commands(prefix: &str) -> (r: Vec<CommandEntry>)
    ensures
        r@ == commands_with(text::lowercase_of(prefix@)),
        text::is_ascii(prefix@) ==> r@ == commands_with(text::ascii_lowered(prefix@)),
{
    let lower = text::to_lowercase(prefix);
    matching_commands(lower.as_str())
}

/// The names of the commands are in lower case, so that a prefix in lower
/// case is compared with them as they are.
pub proof fn command_names_are_lower_case(i: int)
    requires
        0 <= i < commands::catalog().len(),
    ensures
        text::is_ascii(commands::catalog()[i].name@),
        text::ascii_lowered(commands::catalog()[i].name@) == commands::catalog()[i].name@,
        commands::catalog()[i].name@[0] == '/',
{
    reveal_strlit("/resume");
    reveal_strlit("/clear");
    reveal_strlit("/compact");
    reveal_strlit("/model");
    reveal_strlit("/effort");
    reveal_strlit("/mode");
    reveal_strlit("/permissions");
    reveal_strlit("/exit");
    let name = commands::catalog()[i].name@;
    assert(text::ascii_lowered(name) =~= name);
}

impl SlashPopup {
    pub fn new() -> (r: Self)
        ensures
            r@ == PopupView::empty(),
    {
        let r = SlashPopup {
            visible: false,
            matches: Vec::new(),
            cursor: 0,
            scroll_top: 0,
            dismissed_for: None,
        };
        assert(r@ =~= PopupView::empty());
        r
    }

    /// Whether the list is shown.
    pub fn is_visible(&self) -> (r: bool)
        ensures
            r == self@.visible,
    {
        self.visible
    }

    /// The commands in the list.
    pub fn matches(&self) -> (r: &[CommandEntry])
        ensures
            r@ == self@.matches,
    {
        self.matches.as_slice()
    }

    /// The highlighted command.
    pub fn selected(&self) -> (r: Option<CommandEntry>)
        ensures
            r == (if self@.cursor < self@.matches.len() {
                Some(self@.matches[self@.cursor as int])
            } else {
                None
            }),
    {
        if self.cursor < self.matches.len() {
            Some(self.matches[self.cursor])
        } else {
            None
        }
    }

    /// Which command is highlighted.
    pub fn cursor(&self) -> (r: usize)
        ensures
            r == self@.cursor,
    {
        self.cursor
    }

    /// Which command is the first visible one.
    pub fn scroll_top(&self) -> (r: usize)
        ensures
            r == self@.scroll_top,
    {
        self.scroll_top
    }

    /// Closes the list.
    pub fn close(&mut self)
        ensures
            final(self)@ == PopupView::empty(),
    {
        self.reset_visible_state();
        self.dismissed_for = None;
    }

    /// Closes the list for the user. It stays closed until the input is
    /// another command.
    pub fn dismiss(&mut self, input: &str)
        ensures
            final(self)@ == PopupView::closed(Some(input@)),
    {
        self.reset_visible_state();
        self.dismissed_for = Some(input.to_owned());
    }

    fn reset_visible_state(&mut self)
        ensures
            final(self)@ == PopupView::closed(old(self)@.dismissed),
    {
        self.visible = false;
        self.matches.clear();
        self.cursor = 0;
        self.scroll_top = 0;
        assert(self@ =~= PopupView::closed(old(self)@.dismissed));
    }

    /// Brings the list in line with the input.
    pub fn sync(&mut self, input: &str)
        ensures
            final(self)@ == old(self)@.synced(input@, text::lowercase_of(input@)),
            text::is_ascii(input@) ==> final(self)@ == old(self)@.synced(
                input@,
                text::ascii_lowered(input@),
            ),
    {
        let lower = text::to_lowercase(input);
        self.sync_lowered(input, lower.as_str());
    }

    /// Brings the list in line with the input, given the input in lower
    /// case.
    pub fn sync_lowered(&mut self, input: &str, lower: &str)
        ensures
            final(self)@ == old(self)@.synced(input@, lower@),
    {
        if !input.is_empty() {
            if let Some(prev) = &self.dismissed_for {
                if text::starts_with(input, prev.as_str()) || text::starts_with(
                    prev.as_str(),
                    input,
                ) {
                    return;
                }
            }
        }
        self.dismissed_for = None;
        let slash = !input.is_empty() && !text::contains_char(input, '\n') && input.get_char(0)
            == '/';
        if !slash {
            self.close();
            return;
        }
        let matches = matching_commands(lower);
        if matches.len() == 0 {
            self.reset_visible_state();
            return;
        }
        self.matches = matches;
        self.visible = true;
        if self.cursor >= self.matches.len() {
            self.cursor = 0;
        }
        self.ensure_visible();
    }

    /// Moves the highlight up; from the first command it goes to the last.
    pub fn move_up(&mut self)
        ensures
            final(self)@ == old(self)@.up(),
    {
        let len = self.matches.len();
        if len == 0 {
            return;
        }
        self.cursor = if self.cursor == 0 {
            len - 1
        } else {
            self.cursor - 1
        };
        self.ensure_visible();
    }

    /// Moves the highlight down; from the last command it goes to the first.
    pub fn move_down(&mut self)
        ensures
            final(self)@ == old(self)@.down(),
    {
        let len = self.matches.len();
        if len == 0 {
            return;
        }
        self.cursor = if self.cursor >= len - 1 {
            0
        } else {
            self.cursor + 1
        };
        self.ensure_visible();
    }

    fn ensure_visible(&mut self)
        ensures
            final(self)@ == old(self)@.scrolled(),
    {
        let len = self.matches.len();
        let visible: usize = if len < MAX_VISIBLE_ROWS {
            len
        } else {
            MAX_VISIBLE_ROWS
        };
        if visible == 0 {
            self.scroll_top = 0;
            return;
        }
        if self.cursor < self.scroll_top {
            self.scroll_top = self.cursor;
        } else if self.cursor - self.scroll_top >= visible {
            self.scroll_top = self.cursor - visible + 1;
        }
    }
}

/// Whatever the user does, something is highlighted in a list that shows
/// anything, and it is in sight.
pub proof fn highlight_stays_in_sight(p: PopupView, input: Seq<char>, lower: Seq<char>)
    requires
        p.wf(),
    ensures
        PopupView::empty().wf(),
        PopupView::closed(Some(input)).wf(),
        p.synced(input, lower).wf(),
        p.up().wf(),
        p.down().wf(),
{
}

/// A list that is hidden is empty, whatever the user does, and a list that
/// is shown is not.
pub proof fn hidden_list_is_empty(p: PopupView, input: Seq<char>, lower: Seq<char>)
    requires
        p.wf(),
    ensures
        p.visible == (p.matches.len() > 0),
        p.synced(input, lower).visible == (p.synced(input, lower).matches.len() > 0),
        p.up().visible == (p.up().matches.len() > 0),
        p.down().visible == (p.down().matches.len() > 0),
        !PopupView::closed(Some(input)).visible,
        PopupView::closed(Some(input)).matches.len() == 0,
{
}

proof fn lemma_moves(p: PopupView, n: nat)
    requires
        p.wf(),
        n <= p.matches.len(),
    ensures
        p.downs(n).matches == p.matches,
        p.ups(n).matches == p.matches,
        p.matches.len() > 0 ==> p.downs(n).cursor == (if p.cursor + n < p.matches.len() {
            (p.cursor + n) as int
        } else {
            p.cursor + n - p.matches.len()
        }),
        p.matches.len() > 0 ==> p.ups(n).cursor == (if p.cursor >= n {
            p.cursor - n
        } else {
            p.cursor - n + p.matches.len()
        }),
    decreases n,
{
    if n > 0 {
        lemma_moves(p, (n - 1) as nat);
    }
}

/// As many moves in one direction as the list has commands come round to the
/// same command.
pub proof fn moves_come_round(p: PopupView)
    requires
        p.wf(),
    ensures
        p.downs(p.matches.len()).cursor == p.cursor,
        p.ups(p.matches.len()).cursor == p.cursor,
        p.downs(p.matches.len()).matches == p.matches,
        p.ups(p.matches.len()).matches == p.matches,
{
    lemma_moves(p, p.matches.len());
}

/// Going down and up again comes back to the same command, and so does
/// going up and down again.
pub proof fn down_undoes_up(p: PopupView)
    requires
        p.wf(),
    ensures
        p.up().down().cursor == p.cursor,
        p.down().up().cursor == p.cursor,
{
}

/// A list that the user closed stays closed while the command is typed on,
/// and opens again for another command.
pub proof fn dismissal_lasts_for_the_command(input: Seq<char>, next: Seq<char>, lower: Seq<char>)
    requires
        next.len() > 0,
    ensures
        text::has_prefix(next, input) ==> PopupView::closed(Some(input)).synced(next, lower)
            == PopupView::closed(Some(input)),
        !text::has_prefix(next, input) && !text::has_prefix(input, next) && is_slash(next)
            && commands_with(lower).len() > 0 ==> PopupView::closed(Some(input)).synced(
            next,
            lower,
        ).visible,
{
}

} // verus!
