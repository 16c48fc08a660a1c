//! The interactive command shell: a fixed line buffer with a cursor, simple
//! word navigation, tab completion over the built-in commands, and the
//! commands themselves (`keymap`, `help`, `quit`).
//!
//! The shell edits its buffer and writes the prompt line to the terminal;
//! what a command asks of the outside world (switching the keymap, leaving
//! the emulator) is returned as a [`ShellAction`] for the caller to carry
//! out.

use vstd::prelude::*;

use crate::keyboard::Keymap;
use crate::keyboard::RawKey;
use crate::tty::Tty;
use crate::tty::TtyView;
use crate::tty::Cell;
use crate::tty::spec_blank;
use crate::tty::spec_putchar;
use crate::tty::spec_write;

verus! {

/// Capacity of the line buffer.
pub const SHELL_BUFFER_SIZE: usize = 2048;

/// Characters of the prompt (`"> "`).
pub const PROMPT_LEN: usize = 2;

/// What a command asks of the world outside the shell.
#[derive(Debug, Clone, Copy, PartialEq, Eq, Structural)]
pub enum ShellAction {
    /// Nothing beyond what was written to the terminal.
    Nothing,
    /// Leave the emulator.
    Quit,
    /// Switch the keyboard to this keymap.
    SetKeymap(Keymap),
}

/// The mathematical image of the shell: the line buffer as a sequence, the
/// filled length, and the cursor position within it.
#[verifier::ext_equal]
pub struct ShellView {
    pub buffer: Seq<char>,
    pub buf_len: int,
    pub pos: int,
}

impl ShellView {
    /// The shell invariant: the buffer has its full capacity, the cursor
    /// stays within the filled part, everything past the filled part is NUL,
    /// and no newline stands in the line (a newline submits it instead).
    pub open spec fn wf(self) -> bool {
        &&& self.buffer.len() == SHELL_BUFFER_SIZE
        &&& 0 <= self.pos <= self.buf_len <= SHELL_BUFFER_SIZE
        &&& forall|k: int| self.buf_len <= k < SHELL_BUFFER_SIZE ==> self.buffer[k] == '\0'
        &&& forall|k: int| 0 <= k < self.buf_len ==> self.buffer[k] != '\n'
    }
}

/// The whitespace the shell's word navigation knows.
pub open spec fn spec_is_white(c: char) -> bool {
    c == ' ' || c == '\t' || c == '\n' || c == '\r'
}

/// ASCII letters and digits; what tab completion counts as a word.
pub open spec fn spec_is_alnum(c: char) -> bool {
    (97 <= c as u32 <= 122) || (65 <= c as u32 <= 90) || (48 <= c as u32 <= 57)
}

/// The first index at or after `start` (within the filled part) holding
/// whitespace; the filled length when there is none; `start` itself when it
/// already lies past the filled part.
pub open spec fn spec_next_white(sh: ShellView, start: int) -> int
    decreases sh.buf_len - start,
{
    if start >= sh.buf_len {
        start
    } else if spec_is_white(sh.buffer[start]) {
        start
    } else {
        spec_next_white(sh, start + 1)
    }
}

/// The first index at or after `start` (within the filled part) holding a
/// non-whitespace character, if any.
pub open spec fn spec_next_non_white(sh: ShellView, start: int) -> Option<int>
    decreases sh.buf_len - start,
{
    if start >= sh.buf_len {
        None
    } else if !spec_is_white(sh.buffer[start]) {
        Some(start)
    } else {
        spec_next_non_white(sh, start + 1)
    }
}

/// The start of the alphanumeric word that `end` points into; `end` itself
/// when it does not point at an alphanumeric character.
pub open spec fn spec_prev_word_start(sh: ShellView, end: int) -> int
    decreases end,
{
    if !spec_is_alnum(sh.buffer[end]) {
        end
    } else if end > 0 && spec_is_alnum(sh.buffer[end - 1]) {
        spec_prev_word_start(sh, end - 1)
    } else {
        end
    }
}

/// Whether `buffer[start..end]` agrees with `name` on the first
/// `min(name.len(), end - start)` characters; with `end - start` no larger
/// than `name.len()`, this says `buffer[start..end]` is a prefix of `name`.
pub open spec fn spec_starts_with(sh: ShellView, start: int, end: int, name: Seq<char>) -> bool {
    forall|n: int| 0 <= n < name.len() && n < end - start ==> sh.buffer[start + n] == name[n]
}

/// Whether `buffer[start..end]` is exactly `name`.
pub open spec fn spec_seg_eq(sh: ShellView, start: int, end: int, name: Seq<char>) -> bool {
    end - start == name.len() && spec_starts_with(sh, start, end, name)
}

/// Inserting one character at the cursor: the filled part right of the
/// cursor moves over by one. The character is refused (and nothing changes)
/// when the line is at the width margin — the prompt, the line and the
/// cursor cell must all fit on one terminal row — or the buffer is full.
pub open spec fn spec_ins_char(sh: ShellView, c: char, width: int) -> (ShellView, bool) {
    if sh.buf_len + PROMPT_LEN + 2 > width || sh.buf_len >= SHELL_BUFFER_SIZE {
        (sh, false)
    } else {
        (
            ShellView {
                buffer: Seq::new(
                    sh.buffer.len(),
                    |k: int|
                        if k < sh.pos {
                            sh.buffer[k]
                        } else if k == sh.pos {
                            c
                        } else if k <= sh.buf_len {
                            sh.buffer[k - 1]
                        } else {
                            sh.buffer[k]
                        },
                ),
                buf_len: sh.buf_len + 1,
                pos: sh.pos + 1,
            },
            true,
        )
    }
}

/// Deleting the character under the cursor: the filled part right of it
/// moves back by one; nothing happens with the cursor at the end.
pub open spec fn spec_del_char(sh: ShellView) -> ShellView {
    if sh.pos < sh.buf_len {
        ShellView {
            buffer: Seq::new(
                sh.buffer.len(),
                |k: int|
                    if sh.pos <= k < sh.buf_len - 1 {
                        sh.buffer[k + 1]
                    } else if k == sh.buf_len - 1 {
                        '\0'
                    } else {
                        sh.buffer[k]
                    },
            ),
            buf_len: sh.buf_len - 1,
            ..sh
        }
    } else {
        sh
    }
}

/// Inserting a whole sequence at the cursor, one character at a time,
/// stopping at the first refused character.
pub open spec fn spec_ins_seq(sh: ShellView, cs: Seq<char>, width: int) -> (ShellView, bool)
    decreases cs.len(),
{
    if cs.len() == 0 {
        (sh, true)
    } else {
        let (sh1, ok) = spec_ins_char(sh, cs[0], width);
        if ok {
            spec_ins_seq(sh1, cs.subrange(1, cs.len() as int), width)
        } else {
            (sh1, false)
        }
    }
}

/// The shell's line editor state.
pub struct KShell {
    pub buffer: Vec<char>,
    pub buf_len: usize,
    pub pos: usize,
}

impl View for KShell {
    type V = ShellView;

    open spec fn view(&self) -> ShellView {
        ShellView {
            buffer: self.buffer@,
            buf_len: self.buf_len as int,
            pos: self.pos as int,
        }
    }
}

/// Exec mirror of [`spec_is_white`].
fn is_white(c: char) -> (r: bool)
    ensures
        r == spec_is_white(c),
{
    c == ' ' || c == '\t' || c == '\n' || c == '\r'
}

/// Exec mirror of [`spec_is_alnum`].
fn is_alnum(c: char) -> (r: bool)
    ensures
        r == spec_is_alnum(c),
{
    let u = c as u32;
    (97 <= u && u <= 122) || (65 <= u && u <= 90) || (48 <= u && u <= 57)
}

impl KShell {
    /// An empty line.
    pub fn new() -> (sh: KShell)
        ensures
            sh@.wf(),
            sh@.buf_len == 0,
            sh@.pos == 0,
            forall|k: int| 0 <= k < SHELL_BUFFER_SIZE ==> sh@.buffer[k] == '\0',
    {
        let mut buffer: Vec<char> = Vec::new();
        while buffer.len() < SHELL_BUFFER_SIZE
            invariant
                buffer@.len() <= SHELL_BUFFER_SIZE,
                forall|k: int| 0 <= k < buffer@.len() ==> buffer@[k] == '\0',
            decreases SHELL_BUFFER_SIZE - buffer@.len(),
        {
            buffer.push('\0');
        }
        KShell { buffer, buf_len: 0, pos: 0 }
    }

    /// First whitespace at or after `start` in the line; see
    /// [`spec_next_white`].
    pub fn next_white(&self, start: usize) -> (r: usize)
        requires
            self@.wf(),
        ensures
            r == spec_next_white(self@, start as int),
            start <= r <= self@.buf_len || r == start,
    {
        let mut cur = start;
        while cur < self.buf_len && !is_white(self.buffer[cur])
            invariant
                self@.wf(),
                start <= cur,
                cur <= self@.buf_len || cur == start,
                spec_next_white(self@, start as int) == spec_next_white(self@, cur as int),
            decreases self@.buf_len - cur,
        {
            cur = cur + 1;
        }
        cur
    }

    /// First non-whitespace at or after `start` in the line; see
    /// [`spec_next_non_white`].
    pub fn next_non_white(&self, start: usize) -> (r: Option<usize>)
        requires
            self@.wf(),
        ensures
            match r {
                Some(i) => Some(i as int) == spec_next_non_white(self@, start as int) && start
                    <= i < self@.buf_len,
                None => spec_next_non_white(self@, start as int) is None,
            },
    {
        let mut cur = start;
        while cur < self.buf_len && is_white(self.buffer[cur])
            invariant
                self@.wf(),
                start <= cur,
                spec_next_non_white(self@, start as int) == spec_next_non_white(
                    self@,
                    cur as int,
                ),
            decreases self@.buf_len - cur,
        {
            cur = cur + 1;
        }
        if cur < self.buf_len {
            Some(cur)
        } else {
            None
        }
    }

    /// Start of the alphanumeric word `end` points into; see
    /// [`spec_prev_word_start`].
    pub fn prev_word_start(&self, end: usize) -> (r: usize)
        requires
            self@.wf(),
            end < self@.buf_len,
        ensures
            r == spec_prev_word_start(self@, end as int),
            r <= end,
    {
        if !is_alnum(self.buffer[end]) {
            return end;
        }
        let mut cur = end;
        while cur > 0 && is_alnum(self.buffer[cur - 1])
            invariant
                self@.wf(),
                cur <= end < self@.buf_len,
                spec_is_alnum(self@.buffer[cur as int]),
                spec_prev_word_start(self@, end as int) == spec_prev_word_start(
                    self@,
                    cur as int,
                ),
            decreases cur,
        {
            cur = cur - 1;
        }
        cur
    }

    /// Whether `buffer[start..end]` agrees with `name` wherever both are
    /// defined; see [`spec_starts_with`].
    pub fn starts_with(&self, start: usize, end: usize, name: &str) -> (r: bool)
        requires
            self@.wf(),
            start <= end <= self@.buf_len,
        ensures
            r == spec_starts_with(self@, start as int, end as int, name@),
    {
        let name_len = name.unicode_len();
        let mut n: usize = 0;
        while n < name_len && n < end - start
            invariant
                self@.wf(),
                start <= end <= self@.buf_len,
                name_len == name@.len(),
                n <= name_len,
                forall|k: int| 0 <= k < n ==> self@.buffer[start + k] == name@[k],
            decreases name_len - n,
        {
            if self.buffer[start + n] != name.get_char(n) {
                return false;
            }
            n = n + 1;
        }
        true
    }

    /// Whether `buffer[start..end]` is exactly `name`; see [`spec_seg_eq`].
    pub fn streq(&self, start: usize, end: usize, name: &str) -> (r: bool)
        requires
            self@.wf(),
            start <= end <= self@.buf_len,
        ensures
            r == spec_seg_eq(self@, start as int, end as int, name@),
    {
        end - start == name.unicode_len() && self.starts_with(start, end, name)
    }

    /// Inserts `c` at the cursor; reports whether it was taken. See
    /// [`spec_ins_char`]: the line is kept short enough that the prompt, the
    /// line and the cursor cell fit on one `tty_width`-wide row.
    pub fn ins_char(&mut self, c: char, tty_width: usize) -> (r: bool)
        requires
            old(self)@.wf(),
            c != '\n',
        ensures
            (final(self)@, r) == spec_ins_char(old(self)@, c, tty_width as int),
            final(self)@.wf(),
            final(self)@.buf_len + PROMPT_LEN + 1 <= tty_width || !r,
            old(self)@.buf_len + PROMPT_LEN + 1 <= tty_width ==> final(self)@.buf_len
                + PROMPT_LEN + 1 <= tty_width,
    {
        if self.buf_len + PROMPT_LEN + 2 > tty_width || self.buf_len >= SHELL_BUFFER_SIZE {
            return false;
        }
        let mut i: usize = self.buf_len - self.pos;
        while i > 0
            invariant
                old(self)@.wf(),
                old(self)@.buf_len < SHELL_BUFFER_SIZE,
                i <= old(self)@.buf_len - old(self)@.pos,
                self@.buf_len == old(self)@.buf_len,
                self@.pos == old(self)@.pos,
                self@.buffer.len() == old(self)@.buffer.len(),
                forall|k: int|
                    0 <= k <= old(self)@.pos + i ==> self@.buffer[k] == old(self)@.buffer[k],
                forall|k: int|
                    old(self)@.pos + i < k <= old(self)@.buf_len ==> self@.buffer[k] == old(
                        self,
                    )@.buffer[k - 1],
                forall|k: int|
                    old(self)@.buf_len < k < SHELL_BUFFER_SIZE ==> self@.buffer[k] == old(
                        self,
                    )@.buffer[k],
            decreases i,
        {
            i = i - 1;
            let moved = self.buffer[self.pos + i];
            self.buffer.set(self.pos + i + 1, moved);
        }
        self.buffer.set(self.pos, c);
        self.pos = self.pos + 1;
        self.buf_len = self.buf_len + 1;
        proof {
            let (target, ok) = spec_ins_char(old(self)@, c, tty_width as int);
            assert(self@.buffer =~= target.buffer);
            assert(self@ =~= target);
        }
        true
    }

    /// Deletes the character under the cursor; see [`spec_del_char`].
    pub fn del_char(&mut self)
        requires
            old(self)@.wf(),
        ensures
            final(self)@ == spec_del_char(old(self)@),
            final(self)@.wf(),
    {
        if self.pos < self.buf_len {
            let mut i: usize = 0;
            while i < self.buf_len - self.pos - 1
                invariant
                    old(self)@.wf(),
                    old(self)@.pos < old(self)@.buf_len,
                    i <= old(self)@.buf_len - old(self)@.pos - 1,
                    self@.buf_len == old(self)@.buf_len,
                    self@.pos == old(self)@.pos,
                    self@.buffer.len() == old(self)@.buffer.len(),
                    forall|k: int|
                        0 <= k < old(self)@.pos ==> self@.buffer[k] == old(self)@.buffer[k],
                    forall|k: int|
                        old(self)@.pos <= k < old(self)@.pos + i ==> self@.buffer[k] == old(
                            self,
                        )@.buffer[k + 1],
                    forall|k: int|
                        old(self)@.pos + i <= k < SHELL_BUFFER_SIZE ==> self@.buffer[k] == old(
                            self,
                        )@.buffer[k],
                decreases old(self)@.buf_len - old(self)@.pos - 1 - i,
            {
                let moved = self.buffer[self.pos + i + 1];
                self.buffer.set(self.pos + i, moved);
                i = i + 1;
            }
            self.buffer.set(self.buf_len - 1, '\0');
            self.buf_len = self.buf_len - 1;
            proof {
                assert(self@.buffer =~= spec_del_char(old(self)@).buffer);
                assert(self@ =~= spec_del_char(old(self)@));
            }
        }
    }

    /// Inserts the characters of `s` starting at index `from`, stopping at
    /// the first refused character; see [`spec_ins_seq`].
    pub fn ins_str_tail(&mut self, s: &str, from: usize, tty_width: usize) -> (r: bool)
        requires
            old(self)@.wf(),
            from <= s@.len(),
            forall|k: int| from <= k < s@.len() ==> s@[k] != '\n',
        ensures
            (final(self)@, r) == spec_ins_seq(
                old(self)@,
                s@.subrange(from as int, s@.len() as int),
                tty_width as int,
            ),
            final(self)@.wf(),
            old(self)@.buf_len + PROMPT_LEN + 1 <= tty_width ==> final(self)@.buf_len
                + PROMPT_LEN + 1 <= tty_width,
    {
        let len = s.unicode_len();
        let mut i: usize = from;
        while i < len
            invariant
                self@.wf(),
                from <= i <= len,
                len == s@.len(),
                old(self)@.buf_len + PROMPT_LEN + 1 <= tty_width ==> self@.buf_len + PROMPT_LEN
                    + 1 <= tty_width,
                forall|k: int| from <= k < s@.len() ==> s@[k] != '\n',
                spec_ins_seq(
                    old(self)@,
                    s@.subrange(from as int, len as int),
                    tty_width as int,
                ) == spec_ins_seq(self@, s@.subrange(i as int, len as int), tty_width as int),
            decreases len - i,
        {
            let c = s.get_char(i);
            let ghost pre = self@;
            let ok = self.ins_char(c, tty_width);
            proof {
                let tail = s@.subrange(i as int, len as int);
                assert(tail[0] == s@[i as int]);
                assert(tail.subrange(1, tail.len() as int) =~= s@.subrange(
                    i + 1,
                    len as int,
                ));
            }
            if !ok {
                return false;
            }
            i = i + 1;
        }
        proof {
            assert(s@.subrange(len as int, len as int) =~= Seq::<char>::empty());
        }
        true
    }

    /// Inserts every character of `s` at the cursor; see [`spec_ins_seq`].
    pub fn ins_str(&mut self, s: &str, tty_width: usize) -> (r: bool)
        requires
            old(self)@.wf(),
            forall|k: int| 0 <= k < s@.len() ==> s@[k] != '\n',
        ensures
            (final(self)@, r) == spec_ins_seq(old(self)@, s@, tty_width as int),
            final(self)@.wf(),
            old(self)@.buf_len + PROMPT_LEN + 1 <= tty_width ==> final(self)@.buf_len
                + PROMPT_LEN + 1 <= tty_width,
    {
        let r = self.ins_str_tail(s, 0, tty_width);
        proof {
            assert(s@.subrange(0, s@.len() as int) =~= s@);
        }
        r
    }
}

/// What cell `j` of the prompt line shows: the two prompt characters, then
/// the line buffer, then blanks to the end of the row.
pub open spec fn spec_line_cell(sh: ShellView, color: crate::tty::Color, j: int) -> Cell {
    if j == 0 {
        Cell { color, ch: '>' }
    } else if j == 1 {
        Cell { color, ch: ' ' }
    } else if j < PROMPT_LEN + sh.buf_len {
        Cell { color, ch: sh.buffer[j - PROMPT_LEN] }
    } else {
        spec_blank(color)
    }
}

/// The terminal after the prompt line is redrawn: the write row shows the
/// prompt and the line buffer followed by blanks, every other row is
/// untouched, the write column stands past the line, and the cursor sits
/// over the character at the shell's cursor position.
pub open spec fn spec_draw_line(sh: ShellView, t: TtyView) -> TtyView {
    TtyView {
        cells: Seq::new(
            t.cells.len(),
            |k: int|
                if k / t.width == t.row {
                    spec_line_cell(sh, t.color, k % t.width)
                } else {
                    t.cells[k]
                },
        ),
        col: PROMPT_LEN + sh.buf_len,
        cursor_row: t.row,
        cursor_col: PROMPT_LEN + sh.pos,
        ..t
    }
}

/// An empty line buffer.
pub open spec fn spec_cleared() -> ShellView {
    ShellView {
        buffer: Seq::new(SHELL_BUFFER_SIZE as nat, |k: int| '\0'),
        buf_len: 0,
        pos: 0,
    }
}

/// Tab completion: when the cursor ends an alphanumeric word that is a
/// prefix of a built-in command's name (tried in the built-ins' order), the
/// rest of that name and a space are inserted.
pub open spec fn spec_tab_complete(sh: ShellView, width: int) -> ShellView {
    if sh.pos == 0 {
        sh
    } else {
        let ws = spec_prev_word_start(sh, sh.pos - 1);
        if spec_starts_with(sh, ws, sh.pos, "keymap"@) && sh.pos - ws <= "keymap"@.len() {
            spec_complete_with(sh, "keymap"@, ws, width)
        } else if spec_starts_with(sh, ws, sh.pos, "help"@) && sh.pos - ws <= "help"@.len() {
            spec_complete_with(sh, "help"@, ws, width)
        } else if spec_starts_with(sh, ws, sh.pos, "quit"@) && sh.pos - ws <= "quit"@.len() {
            spec_complete_with(sh, "quit"@, ws, width)
        } else {
            sh
        }
    }
}

/// Inserting the unmatched tail of `name` and a trailing space.
pub open spec fn spec_complete_with(sh: ShellView, name: Seq<char>, ws: int, width: int) -> ShellView {
    let sh1 = spec_ins_seq(sh, name.subrange(sh.pos - ws, name.len() as int), width).0;
    spec_ins_char(sh1, ' ', width).0
}

/// The `keymap` command's effect, given where its name ended: with no
/// argument or an unknown one it prints what is available; a known keymap is
/// handed back as an action to carry out.
pub open spec fn spec_cmd_keymap(sh: ShellView, cmd_end: int, t: TtyView) -> (TtyView, ShellAction) {
    match spec_next_non_white(sh, cmd_end) {
        Option::None => (
            spec_write(t, "No keymap specified\nAvailable keymaps: azerty, qwerty\n"@),
            ShellAction::Nothing,
        ),
        Option::Some(ks) => {
            let ke = spec_next_white(sh, ks);
            if spec_seg_eq(sh, ks, ke, "azerty"@) {
                (t, ShellAction::SetKeymap(Keymap::Azerty))
            } else if spec_seg_eq(sh, ks, ke, "qwerty"@) {
                (t, ShellAction::SetKeymap(Keymap::Qwerty))
            } else {
                (
                    spec_write(t, "Unknown keymap\nAvailable keymaps: azerty, qwerty\n"@),
                    ShellAction::Nothing,
                )
            }
        },
    }
}

/// What the shell prints for the `help` command.
pub open spec fn spec_help_text() -> Seq<char> {
    "Primoria KShell\nCommands:\n  keymap: change the keymap\n  help: print help for the shell\n  quit: quit\n"@
}

/// Executing the line: an empty line does nothing; otherwise the first word
/// selects a built-in command (whose output lands on the terminal and whose
/// request comes back as the action), and an unknown word reports itself.
pub open spec fn spec_exec(sh: ShellView, t: TtyView) -> (TtyView, ShellAction) {
    match spec_next_non_white(sh, 0) {
        Option::None => (t, ShellAction::Nothing),
        Option::Some(cs) => {
            let ce = spec_next_white(sh, cs);
            if spec_seg_eq(sh, cs, ce, "keymap"@) {
                spec_cmd_keymap(sh, ce, t)
            } else if spec_seg_eq(sh, cs, ce, "help"@) {
                (spec_write(t, spec_help_text()), ShellAction::Nothing)
            } else if spec_seg_eq(sh, cs, ce, "quit"@) {
                (spec_write(t, "EXIT! (well, no)\n"@), ShellAction::Quit)
            } else {
                (spec_write(t, "Command not found\n"@), ShellAction::Nothing)
            }
        },
    }
}

/// One key, dispatched: newline executes the line and clears it, tab
/// completes, backspace deletes left of the cursor, delete deletes under it,
/// and anything else is inserted; the prompt line is redrawn afterwards.
pub open spec fn spec_keypressed(sh: ShellView, t: TtyView, key: char) -> (
    ShellView,
    TtyView,
    ShellAction,
) {
    if key == '\n' {
        let t1 = spec_putchar(t, '\n');
        let (t2, act) = spec_exec(sh, t1);
        (spec_cleared(), spec_draw_line(spec_cleared(), t2), act)
    } else {
        let sh2 = if key == '\t' {
            spec_tab_complete(sh, t.width)
        } else if key == '\u{8}' {
            if sh.pos > 0 {
                spec_del_char(ShellView { pos: sh.pos - 1, ..sh })
            } else {
                sh
            }
        } else if key == '\u{7f}' {
            spec_del_char(sh)
        } else {
            spec_ins_char(sh, key, t.width).0
        };
        (sh2, spec_draw_line(sh2, t), ShellAction::Nothing)
    }
}

/// The grid of `t` agrees with the redrawn prompt line up to buffer
/// character `n` (and past the line's end), and with `t0` elsewhere. Opaque:
/// the quantifier is opened only where a proof steps through the grid.
#[verifier::opaque]
spec fn line_agrees(sh: ShellView, t0: TtyView, t: TtyView, n: int) -> bool {
    forall|i: int, j: int|
        0 <= i < t0.height && 0 <= j < t0.width ==> #[trigger] t.cell(i, j)
            == spec_line_tail_cell(sh, t0, i, j, n)
}

/// After the clear and the two prompt characters, the prompt row agrees with
/// the target line on the prompt and on the blanked tail.
proof fn lemma_draw_prompt(sh: ShellView, t0: TtyView, t1: TtyView, t3: TtyView)
    requires
        sh.wf(),
        t0.wf(),
        sh.buf_len + PROMPT_LEN + 1 <= t0.width,
        t1.wf(),
        t1.width == t0.width,
        t1.height == t0.height,
        t1.mode == t0.mode,
        t1.color == t0.color,
        t1.cursor_row == t0.cursor_row,
        t1.cursor_col == t0.cursor_col,
        t1.row == t0.row,
        t1.col == 0,
        t1.mode is Scrolling,
        forall|i: int, j: int|
            0 <= i < t0.height && 0 <= j < t0.width ==> #[trigger] t1.cell(i, j) == (
            if i == t0.row && PROMPT_LEN + sh.buf_len <= j {
                spec_blank(t0.color)
            } else {
                t0.cell(i, j)
            }),
        t3 == spec_putchar(spec_putchar(t1, '>'), ' '),
    ensures
        line_agrees(sh, t0, t3, 0),
        t3.col == PROMPT_LEN,
{
    reveal(line_agrees);
    let t2 = spec_putchar(t1, '>');
    crate::tty::lemma_putchar_cells(t1, '>');
    crate::tty::lemma_putchar_cells(t2, ' ');
    let w = t0.width;
    let h = t0.height;
    let row = t0.row;
    crate::tty::lemma_grid_index(row, 0int, w, h);
    crate::tty::lemma_grid_index(row, 1int, w, h);
    assert forall|i: int, j: int|
        0 <= i < h && 0 <= j < w implies #[trigger] t3.cell(i, j) == spec_line_tail_cell(
        sh,
        t0,
        i,
        j,
        0,
    ) by {
        crate::tty::lemma_grid_index(i, j, w, h);
        if (i, j) != (row, 0int) {
            crate::tty::lemma_grid_injective(i, j, row, 0int, w);
            assert(t2.cell(i, j) == t1.cell(i, j));
        } else {
            assert(t2.cell(i, j) == Cell { color: t0.color, ch: '>' });
        }
        if (i, j) != (row, 1int) {
            crate::tty::lemma_grid_injective(i, j, row, 1int, w);
            assert(t3.cell(i, j) == t2.cell(i, j));
        } else {
            assert(t3.cell(i, j) == Cell { color: t0.color, ch: ' ' });
        }
    }
}

/// Writing buffer character `n` over the prompt row changes exactly that
/// column's cell, to the line's character, and moves the write position one
/// column right.
proof fn lemma_draw_step(
    sh: ShellView,
    t0: TtyView,
    before: TtyView,
    after: TtyView,
    n: int,
    c: char,
)
    requires
        sh.wf(),
        t0.wf(),
        sh.buf_len + PROMPT_LEN + 1 <= t0.width,
        0 <= n < sh.buf_len,
        c == sh.buffer[n],
        before.wf(),
        before.width == t0.width,
        before.height == t0.height,
        before.row == t0.row,
        before.col == PROMPT_LEN + n,
        before.color == t0.color,
        before.mode is Scrolling,
        after == spec_putchar(before, c),
    ensures
        after.col == PROMPT_LEN + n + 1,
        after.cell(t0.row, PROMPT_LEN + n) == (Cell { color: t0.color, ch: sh.buffer[n] }),
        forall|i: int, j: int|
            0 <= i < t0.height && 0 <= j < t0.width && (i, j) != (t0.row, PROMPT_LEN + n)
                ==> #[trigger] after.cell(i, j) == before.cell(i, j),
{
    let w = t0.width;
    let h = t0.height;
    let row = t0.row;
    crate::tty::lemma_putchar_cells(before, c);
    assert(after.cells == before.cells.update(
        before.col + before.row * before.width,
        Cell { color: before.color, ch: c },
    ));
    crate::tty::lemma_grid_index(row, PROMPT_LEN + n, w, h);
    assert(before.cells.len() == w * h);
    vstd::seq::lemma_seq_update_same_alt(
        before.cells,
        before.col + before.row * before.width,
        Cell { color: before.color, ch: c },
    );
    assert(after.cell(row, PROMPT_LEN + n) == (Cell { color: t0.color, ch: c }));
    assert forall|i: int, j: int|
        0 <= i < h && 0 <= j < w && (i, j) != (row, PROMPT_LEN + n) implies #[trigger] after.cell(
        i,
        j,
    ) == before.cell(i, j) by {
        crate::tty::lemma_grid_index(i, j, w, h);
        crate::tty::lemma_grid_injective(i, j, row, PROMPT_LEN + n, w);
        vstd::seq::lemma_seq_update_different_alt(
            before.cells,
            j + i * w,
            before.col + before.row * before.width,
            Cell { color: before.color, ch: c },
        );
    }
}

/// Extending the agreement with the target line by one column, given that
/// exactly that column's cell changed, to the line's character.
proof fn lemma_agree_step(sh: ShellView, t0: TtyView, before: TtyView, after: TtyView, n: int)
    requires
        sh.wf(),
        t0.wf(),
        sh.buf_len + PROMPT_LEN + 1 <= t0.width,
        0 <= n < sh.buf_len,
        line_agrees(sh, t0, before, n),
        after.cell(t0.row, PROMPT_LEN + n) == (Cell { color: t0.color, ch: sh.buffer[n] }),
        forall|i: int, j: int|
            0 <= i < t0.height && 0 <= j < t0.width && (i, j) != (t0.row, PROMPT_LEN + n)
                ==> #[trigger] after.cell(i, j) == before.cell(i, j),
    ensures
        line_agrees(sh, t0, after, n + 1),
{
    reveal(line_agrees);
    assert forall|i: int, j: int|
        0 <= i < t0.height && 0 <= j < t0.width implies #[trigger] after.cell(i, j)
        == spec_line_tail_cell(sh, t0, i, j, n + 1) by {
        if (i, j) != (t0.row, PROMPT_LEN + n) {
            assert(after.cell(i, j) == before.cell(i, j));
            assert(before.cell(i, j) == spec_line_tail_cell(sh, t0, i, j, n));
        }
    }
}

/// A terminal whose prompt row agrees with the target line everywhere is the
/// drawn line, once the cursor stands over the shell's position.
proof fn lemma_draw_finish(sh: ShellView, t0: TtyView, cur: TtyView)
    requires
        sh.wf(),
        t0.wf(),
        cur.wf(),
        cur.width == t0.width,
        cur.height == t0.height,
        cur.mode == t0.mode,
        cur.color == t0.color,
        cur.row == t0.row,
        cur.col == PROMPT_LEN + sh.buf_len,
        cur.cursor_row == t0.row,
        cur.cursor_col == PROMPT_LEN + sh.pos,
        line_agrees(sh, t0, cur, sh.buf_len),
    ensures
        cur == spec_draw_line(sh, t0),
{
    reveal(line_agrees);
    let target = spec_draw_line(sh, t0);
    let w = t0.width;
    let h = t0.height;
    assert(h * w == w * h) by (nonlinear_arith);
    assert forall|k: int| 0 <= k < cur.cells.len() implies cur.cells[k] == target.cells[k] by {
        vstd::arithmetic::div_mod::lemma_fundamental_div_mod(k, w);
        vstd::arithmetic::div_mod::lemma_mod_bound(k, w);
        let ki = k / w;
        let kj = k % w;
        assert(0 <= ki && ki < h) by (nonlinear_arith)
            requires
                0 <= k < w * h,
                k == w * ki + kj,
                0 <= kj < w,
                w >= 1,
        ;
        assert(ki * w == w * ki) by (nonlinear_arith);
        crate::tty::lemma_grid_index(ki, kj, w, h);
        assert(cur.cell(ki, kj) == spec_line_tail_cell(sh, t0, ki, kj, sh.buf_len));
        assert(cur.cells[k] == cur.cell(ki, kj));
        if ki == t0.row {
            assert(target.cells[k] == spec_line_cell(sh, t0.color, kj));
        } else {
            assert(target.cells[k] == t0.cells[k]);
            assert(t0.cell(ki, kj) == t0.cells[k]);
        }
    }
    assert(cur.cells.len() == target.cells.len());
    assert(cur.cells =~= target.cells);
    assert(cur =~= target);
}

impl KShell {
    /// Redraws the prompt line on the terminal's write row; see
    /// [`spec_draw_line`].
    pub fn draw_line(&self, tty: &mut Tty)
        requires
            self@.wf(),
            old(tty)@.wf(),
            old(tty)@.mode is Scrolling,
            self@.buf_len + PROMPT_LEN + 1 <= old(tty)@.width,
        ensures
            final(tty)@ == spec_draw_line(self@, old(tty)@),
            final(tty)@.wf(),
    {
        tty.col = 0;
        let row = tty.row;
        let ghost t0 = old(tty)@;
        let clear_start = self.buf_len + PROMPT_LEN;
        let clear_width = tty.width - clear_start;
        tty.clear_rect(row, clear_start, clear_width, 1);
        let ghost t1 = tty@;
        tty.putchar('>');
        tty.putchar(' ');
        proof {
            lemma_draw_prompt(self@, t0, t1, tty@);
        }
        let mut n: usize = 0;
        while n < self.buf_len
            invariant
                self@.wf(),
                t0.wf(),
                self@.buf_len + PROMPT_LEN + 1 <= t0.width,
                n <= self@.buf_len,
                row == t0.row,
                tty@.wf(),
                tty@.width == t0.width,
                tty@.height == t0.height,
                tty@.mode == t0.mode,
                tty@.color == t0.color,
                tty@.cursor_row == t0.cursor_row,
                tty@.cursor_col == t0.cursor_col,
                tty@.row == t0.row,
                tty@.col == PROMPT_LEN + n,
                tty@.mode is Scrolling,
                line_agrees(self@, t0, tty@, n as int),
            decreases self@.buf_len - n,
        {
            let c = self.buffer[n];
            let ghost before = tty@;
            tty.putchar(c);
            proof {
                lemma_draw_step(self@, t0, before, tty@, n as int, c);
                lemma_agree_step(self@, t0, before, tty@, n as int);
            }
            n = n + 1;
        }
        let ghost lined = tty@;
        tty.set_cursor(row, PROMPT_LEN + self.pos);
        proof {
            assert(tty@.cells == lined.cells);
            assert(line_agrees(self@, t0, tty@, self@.buf_len)) by {
                reveal(line_agrees);
                assert forall|i: int, j: int|
                    0 <= i < t0.height && 0 <= j < t0.width implies #[trigger] tty@.cell(i, j)
                    == spec_line_tail_cell(self@, t0, i, j, self@.buf_len) by {
                    assert(lined.cell(i, j) == spec_line_tail_cell(
                        self@,
                        t0,
                        i,
                        j,
                        self@.buf_len,
                    ));
                }
            }
            lemma_draw_finish(self@, t0, tty@);
        }
    }
}

/// What the prompt row shows after the first `n` buffer characters are
/// written over a cleared tail: the prompt, the written prefix, the old
/// content where the line has not reached yet, and blanks past the line.
pub open spec fn spec_line_tail_cell(sh: ShellView, t: TtyView, i: int, j: int, n: int) -> Cell {
    if i == t.row {
        if j < PROMPT_LEN + n || j >= PROMPT_LEN + sh.buf_len {
            spec_line_cell(sh, t.color, j)
        } else {
            t.cell(i, j)
        }
    } else {
        t.cell(i, j)
    }
}

/// Moving the cursor with an editing key: the arrows move one character,
/// home and end jump, anything else does nothing.
pub open spec fn spec_keypressed_raw(sh: ShellView, key: RawKey) -> ShellView {
    match key {
        RawKey::ArrowLeft => if sh.pos > 0 {
            ShellView { pos: sh.pos - 1, ..sh }
        } else {
            sh
        },
        RawKey::ArrowRight => if sh.pos < sh.buf_len {
            ShellView { pos: sh.pos + 1, ..sh }
        } else {
            sh
        },
        RawKey::Home => ShellView { pos: 0, ..sh },
        RawKey::End => ShellView { pos: sh.buf_len, ..sh },
        RawKey::Other => sh,
    }
}

impl KShell {
    /// Executes the line as a command; the terminal receives the command's
    /// output and the returned action asks the caller for whatever the
    /// command needs from outside. See [`spec_exec`].
    pub fn exec(&self, tty: &mut Tty) -> (act: ShellAction)
        requires
            self@.wf(),
            old(tty)@.wf(),
        ensures
            (final(tty)@, act) == spec_exec(self@, old(tty)@),
            final(tty)@.wf(),
            final(tty)@.mode == old(tty)@.mode,
            final(tty)@.width == old(tty)@.width,
            final(tty)@.height == old(tty)@.height,
            final(tty)@.color == old(tty)@.color,
    {
        let cmd_start = match self.next_non_white(0) {
            Some(i) => i,
            None => {
                return ShellAction::Nothing;
            },
        };
        let cmd_end = self.next_white(cmd_start);
        if self.streq(cmd_start, cmd_end, "keymap") {
            self.cmd_keymap(cmd_end, tty)
        } else if self.streq(cmd_start, cmd_end, "help") {
            self.cmd_help(tty);
            ShellAction::Nothing
        } else if self.streq(cmd_start, cmd_end, "quit") {
            self.cmd_quit(tty)
        } else {
            let ghost t = tty@;
            tty.write_string("Command not found\n");
            proof {
                crate::tty::lemma_write_fixed(t, "Command not found\n"@);
            }
            ShellAction::Nothing
        }
    }

    /// The `keymap` command; see [`spec_cmd_keymap`]. `cmd_end` is where the
    /// command's name ended.
    pub fn cmd_keymap(&self, cmd_end: usize, tty: &mut Tty) -> (act: ShellAction)
        requires
            self@.wf(),
            old(tty)@.wf(),
            cmd_end <= self@.buf_len,
        ensures
            (final(tty)@, act) == spec_cmd_keymap(self@, cmd_end as int, old(tty)@),
            final(tty)@.wf(),
            final(tty)@.mode == old(tty)@.mode,
            final(tty)@.width == old(tty)@.width,
            final(tty)@.height == old(tty)@.height,
            final(tty)@.color == old(tty)@.color,
    {
        let keymap_start = match self.next_non_white(cmd_end) {
            Some(i) => i,
            None => {
                let ghost t = tty@;
                tty.write_string("No keymap specified\nAvailable keymaps: azerty, qwerty\n");
                proof {
                    crate::tty::lemma_write_fixed(
                        t,
                        "No keymap specified\nAvailable keymaps: azerty, qwerty\n"@,
                    );
                }
                return ShellAction::Nothing;
            },
        };
        let keymap_end = self.next_white(keymap_start);
        if self.streq(keymap_start, keymap_end, "azerty") {
            ShellAction::SetKeymap(Keymap::Azerty)
        } else if self.streq(keymap_start, keymap_end, "qwerty") {
            ShellAction::SetKeymap(Keymap::Qwerty)
        } else {
            let ghost t = tty@;
            tty.write_string("Unknown keymap\nAvailable keymaps: azerty, qwerty\n");
            proof {
                crate::tty::lemma_write_fixed(
                    t,
                    "Unknown keymap\nAvailable keymaps: azerty, qwerty\n"@,
                );
            }
            ShellAction::Nothing
        }
    }

    /// The `help` command: prints the built-in commands.
    pub fn cmd_help(&self, tty: &mut Tty)
        requires
            old(tty)@.wf(),
        ensures
            final(tty)@ == spec_write(old(tty)@, spec_help_text()),
            final(tty)@.wf(),
            final(tty)@.mode == old(tty)@.mode,
            final(tty)@.width == old(tty)@.width,
            final(tty)@.height == old(tty)@.height,
            final(tty)@.color == old(tty)@.color,
    {
        let ghost t = tty@;
        tty.write_string(
            "Primoria KShell\nCommands:\n  keymap: change the keymap\n  help: print help for the shell\n  quit: quit\n",
        );
        proof {
            crate::tty::lemma_write_fixed(t, spec_help_text());
        }
    }

    /// The `quit` command: asks the caller to leave the emulator (and notes,
    /// as long as nobody does, that nothing happened).
    pub fn cmd_quit(&self, tty: &mut Tty) -> (act: ShellAction)
        requires
            old(tty)@.wf(),
        ensures
            act == ShellAction::Quit,
            final(tty)@ == spec_write(old(tty)@, "EXIT! (well, no)\n"@),
            final(tty)@.wf(),
            final(tty)@.mode == old(tty)@.mode,
            final(tty)@.width == old(tty)@.width,
            final(tty)@.height == old(tty)@.height,
            final(tty)@.color == old(tty)@.color,
    {
        let ghost t = tty@;
        tty.write_string("EXIT! (well, no)\n");
        proof {
            crate::tty::lemma_write_fixed(t, "EXIT! (well, no)\n"@);
        }
        ShellAction::Quit
    }

    /// One key from the keyboard; see [`spec_keypressed`]. The prompt line
    /// is redrawn, and the line always stays short enough for the prompt,
    /// the line and the cursor cell to fit on one terminal row.
    pub fn keypressed(&mut self, key: char, tty: &mut Tty) -> (act: ShellAction)
        requires
            old(self)@.wf(),
            old(tty)@.wf(),
            old(tty)@.mode is Scrolling,
            old(self)@.buf_len + PROMPT_LEN + 1 <= old(tty)@.width,
        ensures
            (final(self)@, final(tty)@, act) == spec_keypressed(old(self)@, old(tty)@, key),
            final(self)@.wf(),
            final(tty)@.wf(),
            final(tty)@.mode is Scrolling,
            final(tty)@.width == old(tty)@.width,
            final(tty)@.height == old(tty)@.height,
            final(self)@.buf_len + PROMPT_LEN + 1 <= final(tty)@.width,
    {
        if key == '\n' {
            tty.putchar('\n');
            let act = self.exec(tty);
            let mut k: usize = 0;
            while k < self.buf_len
                invariant
                    old(self)@.wf(),
                    k <= old(self)@.buf_len,
                    self@.buf_len == old(self)@.buf_len,
                    self@.pos == old(self)@.pos,
                    self@.buffer.len() == SHELL_BUFFER_SIZE,
                    forall|m: int| 0 <= m < k ==> self@.buffer[m] == '\0',
                    forall|m: int|
                        k <= m < SHELL_BUFFER_SIZE ==> self@.buffer[m] == old(self)@.buffer[m],
                decreases self@.buf_len - k,
            {
                self.buffer.set(k, '\0');
                k = k + 1;
            }
            self.pos = 0;
            self.buf_len = 0;
            proof {
                assert(self@.buffer =~= spec_cleared().buffer);
                assert(self@ =~= spec_cleared());
            }
            self.draw_line(tty);
            act
        } else {
            if key == '\t' {
                self.tab_complete(tty.width());
            } else if key == '\u{8}' {
                if self.pos > 0 {
                    self.pos = self.pos - 1;
                    self.del_char();
                }
            } else if key == '\u{7f}' {
                self.del_char();
            } else {
                let _taken = self.ins_char(key, tty.width());
            }
            self.draw_line(tty);
            ShellAction::Nothing
        }
    }

    /// Tab completion over the built-in commands; see [`spec_tab_complete`].
    fn tab_complete(&mut self, tty_width: usize)
        requires
            old(self)@.wf(),
        ensures
            final(self)@ == spec_tab_complete(old(self)@, tty_width as int),
            final(self)@.wf(),
            old(self)@.buf_len + PROMPT_LEN + 1 <= tty_width ==> final(self)@.buf_len
                + PROMPT_LEN + 1 <= tty_width,
    {
        proof {
            reveal_strlit("keymap");
            reveal_strlit("help");
            reveal_strlit("quit");
        }
        if self.pos == 0 {
            return;
        }
        let ws = self.prev_word_start(self.pos - 1);
        if self.starts_with(ws, self.pos, "keymap") && self.pos - ws <= "keymap".unicode_len() {
            self.complete_with("keymap", ws, tty_width);
        } else if self.starts_with(ws, self.pos, "help") && self.pos - ws
            <= "help".unicode_len() {
            self.complete_with("help", ws, tty_width);
        } else if self.starts_with(ws, self.pos, "quit") && self.pos - ws
            <= "quit".unicode_len() {
            self.complete_with("quit", ws, tty_width);
        }
    }

    /// Inserts the unmatched tail of `name` and a trailing space; see
    /// [`spec_complete_with`].
    fn complete_with(&mut self, name: &str, ws: usize, tty_width: usize)
        requires
            old(self)@.wf(),
            ws <= old(self)@.pos,
            old(self)@.pos - ws <= name@.len(),
            forall|k: int| 0 <= k < name@.len() ==> name@[k] != '\n',
        ensures
            final(self)@ == spec_complete_with(old(self)@, name@, ws as int, tty_width as int),
            final(self)@.wf(),
            old(self)@.buf_len + PROMPT_LEN + 1 <= tty_width ==> final(self)@.buf_len
                + PROMPT_LEN + 1 <= tty_width,
    {
        let _filled = self.ins_str_tail(name, self.pos - ws, tty_width);
        let _spaced = self.ins_char(' ', tty_width);
    }

    /// One editing key: cursor movement only; the prompt line is redrawn.
    /// See [`spec_keypressed_raw`].
    pub fn keypressed_raw(&mut self, key: RawKey, tty: &mut Tty)
        requires
            old(self)@.wf(),
            old(tty)@.wf(),
            old(tty)@.mode is Scrolling,
            old(self)@.buf_len + PROMPT_LEN + 1 <= old(tty)@.width,
        ensures
            final(self)@ == spec_keypressed_raw(old(self)@, key),
            final(tty)@ == spec_draw_line(spec_keypressed_raw(old(self)@, key), old(tty)@),
            final(self)@.wf(),
            final(tty)@.wf(),
            final(tty)@.mode is Scrolling,
            final(tty)@.width == old(tty)@.width,
            final(tty)@.height == old(tty)@.height,
            final(self)@.buf_len == old(self)@.buf_len,
    {
        match key {
            RawKey::ArrowLeft => {
                if self.pos > 0 {
                    self.pos = self.pos - 1;
                }
            },
            RawKey::ArrowRight => {
                if self.pos < self.buf_len {
                    self.pos = self.pos + 1;
                }
            },
            RawKey::Home => {
                self.pos = 0;
            },
            RawKey::End => {
                self.pos = self.buf_len;
            },
            RawKey::Other => {},
        }
        proof {
            assert(self@ =~= spec_keypressed_raw(old(self)@, key));
        }
        self.draw_line(tty);
    }

    /// Greets and draws the empty prompt.
    pub fn init(&self, tty: &mut Tty)
        requires
            self@.wf(),
            old(tty)@.wf(),
            old(tty)@.mode is Scrolling,
            self@.buf_len + PROMPT_LEN + 1 <= old(tty)@.width,
        ensures
            final(tty)@ == spec_draw_line(
                self@,
                spec_write(old(tty)@, "Welcome to Primoria !\n"@),
            ),
            final(tty)@.wf(),
    {
        let ghost t = tty@;
        tty.write_string("Welcome to Primoria !\n");
        proof {
            crate::tty::lemma_write_fixed(t, "Welcome to Primoria !\n"@);
        }
        self.draw_line(tty);
    }
}

} // verus!
