use vstd::prelude::*;

use crate::input::{byte_len, on_boundary, utf8, InputBuffer, Key, KeyPress};
use crate::text::{copy_str, push_char};

verus! {

/// What a key pressed in the command palette asks of its owner.
#[derive(Debug, Clone, Copy, PartialEq, Eq, Structural)]
pub enum PaletteStep {
    /// Run the match at this index of `matches`.
    Execute(usize),
    /// The palette closed without running anything.
    Close,
    /// The query changed: the owner searches the commands for `query()` and
    /// hands the names found to `set_matches`.
    Requery,
    /// Nothing for the owner to do.
    Nothing,
}

/// The command palette: a query typed after `:`, the names of the commands
/// that match it, and the one selected among them.
pub struct CommandPalette {
    pub input: InputBuffer,
    pub visible: bool,
    pub selected: usize,
    /// The names of the matching commands, in the order the search gave them.
    pub matches: Vec<String>,
}

/// Whether no modifier is held.
pub open spec fn unmodified(k: KeyPress) -> bool {
    !k.ctrl && !k.alt && !k.shift
}

/// The selection one up among `n` matches; unchanged when there are none.
pub open spec fn up_from(sel: int, n: int) -> int {
    if n > 0 {
        if sel > 0 { sel - 1 } else { 0 }
    } else {
        sel
    }
}

/// The selection one down among `n` matches, held at the last.
pub open spec fn down_from(sel: int, n: int) -> int {
    if n > 0 {
        if sel + 1 < n - 1 { sel + 1 } else { n - 1 }
    } else {
        sel
    }
}

/// The selection after a key that moves it among `n` matches: arrows and
/// plain `k`/`j` by one, `Tab` by one round the list, page keys by ten,
/// `Home` and `End` to the ends. `None` for a key that does not move it.
pub open spec fn moved_selection(k: KeyPress, sel: int, n: int) -> Option<int> {
    match k.code {
        Key::Up => Some(up_from(sel, n)),
        Key::Down => Some(down_from(sel, n)),
        Key::Char(c) => if c == 'k' && unmodified(k) {
            Some(up_from(sel, n))
        } else if c == 'j' && unmodified(k) {
            Some(down_from(sel, n))
        } else {
            None
        },
        Key::Tab => Some(if n > 0 { (sel + 1) % n } else { sel }),
        Key::PageUp => Some(if sel >= 10 { sel - 10 } else { 0 }),
        Key::PageDown => Some(
            if n > 0 {
                if sel + 10 < n - 1 { sel + 10 } else { n - 1 }
            } else {
                sel
            },
        ),
        Key::Home => Some(0),
        Key::End => Some(if n > 0 { n - 1 } else { sel }),
        _ => None,
    }
}

/// The character a key types into the query: a character pressed without
/// modifiers, other than the `k` and `j` that move the selection.
pub open spec fn typed_char(k: KeyPress) -> Option<char> {
    match k.code {
        Key::Char(c) => if unmodified(k) && c != 'k' && c != 'j' { Some(c) } else { None },
        _ => None,
    }
}

/// `after` is `before` with `c` inserted at the cursor and the cursor one
/// byte on (`InputBuffer::insert_char`).
pub open spec fn inserted(before: InputBuffer, c: char, after: InputBuffer) -> bool {
    let b = utf8(before.content@);
    let i = before.cursor_pos as int;
    &&& utf8(after.content@) == b.take(i) + utf8(seq![c]) + b.skip(i)
    &&& after.cursor_pos == before.cursor_pos + 1
}

/// `after` is `before` with the character before the cursor deleted and the
/// cursor where it began (`InputBuffer::delete_char`); unchanged with the
/// cursor at the start.
pub open spec fn deleted_before(before: InputBuffer, after: InputBuffer) -> bool {
    if before.cursor_pos == 0 {
        after.content@ == before.content@ && after.cursor_pos == 0
    } else {
        exists|c: char|
            {
                let b = utf8(before.content@);
                let i = before.cursor_pos - 1;
                let w = #[trigger] utf8(seq![c]).len();
                &&& i + w <= b.len()
                &&& b.subrange(i, i + w) == utf8(seq![c])
                &&& utf8(after.content@) == b.take(i) + b.skip(i + w)
                &&& after.cursor_pos == i
            }
    }
}

/// What a key needs of the palette so that handling it cannot fail: the
/// cursor on a character boundary for an edit of the query, and room in
/// `usize` for the selection to move down.
pub open spec fn key_fits(input: InputBuffer, k: KeyPress, sel: int, n: int) -> bool {
    &&& k.code == Key::Backspace && input.cursor_pos > 0 ==> on_boundary(input.content@, input.cursor_pos - 1)
        && input.cursor_pos - 1 < utf8(input.content@).len()
    &&& typed_char(k) is Some ==> on_boundary(input.content@, input.cursor_pos as int) && input.cursor_pos
        < usize::MAX
    &&& n > 0 && (k.code == Key::Down || k.code == Key::Tab || (k.code == Key::Char('j') && unmodified(k)))
        ==> sel < usize::MAX
    &&& n > 0 && k.code == Key::PageDown ==> sel + 10 <= usize::MAX
}

/// The query: the text after the leading colons.
pub open spec fn without_colons(s: Seq<char>) -> Seq<char>
    decreases s.len(),
{
    if s.len() > 0 && s[0] == ':' {
        without_colons(s.drop_first())
    } else {
        s
    }
}

/// What handling `k` does to a visible palette `o`, leaving `f` and asking
/// `r` of the owner: `Esc` closes; `Enter` closes and runs the selected
/// match (the last where the selection is past the end), or only closes
/// when nothing matches; `Backspace` deletes before the cursor and a typed
/// character is inserted, both selecting the first match and asking for a
/// new search; the keys of `moved_selection` move the selection; any other
/// key does nothing.
pub open spec fn palette_key_step(o: CommandPalette, k: KeyPress, f: CommandPalette, r: PaletteStep) -> bool {
    let n = o.matches@.len() as int;
    let sel = o.selected as int;
    match k.code {
        Key::Esc => r == PaletteStep::Close && !f.visible && f.input == o.input && f.selected == o.selected,
        Key::Enter => !f.visible && f.input == o.input && f.selected == o.selected && r == (if n > 0 {
            PaletteStep::Execute((if sel < n - 1 { sel } else { n - 1 }) as usize)
        } else {
            PaletteStep::Close
        }),
        Key::Backspace => r == PaletteStep::Requery && f.visible && f.selected == 0 && deleted_before(
            o.input,
            f.input,
        ),
        _ => match moved_selection(k, sel, n) {
            Some(s) => r == PaletteStep::Nothing && f.visible && f.input == o.input && f.selected == s,
            None => match typed_char(k) {
                Some(c) => r == PaletteStep::Requery && f.visible && f.selected == 0 && inserted(
                    o.input,
                    c,
                    f.input,
                ),
                None => r == PaletteStep::Nothing && f.visible && f.input == o.input && f.selected
                    == o.selected,
            },
        },
    }
}

fn up_exec(sel: usize, n: usize) -> (r: usize)
    ensures
        r == up_from(sel as int, n as int),
{
    if n > 0 {
        if sel > 0 { sel - 1 } else { 0 }
    } else {
        sel
    }
}

fn down_exec(sel: usize, n: usize) -> (r: usize)
    requires
        n > 0 ==> sel < usize::MAX,
    ensures
        r == down_from(sel as int, n as int),
{
    if n > 0 {
        if sel + 1 < n - 1 { sel + 1 } else { n - 1 }
    } else {
        sel
    }
}

impl CommandPalette {
    /// A hidden palette with the query `:` and all the commands matching.
    pub fn new(commands: Vec<String>) -> (r: Self)
        ensures
            !r.visible,
            r.input.content@ == seq![':'],
            r.input.cursor_pos == 1,
            r.selected == 0,
            r.matches == commands,
    {
        proof {
            lemma_colon_byte();
        }
        CommandPalette { input: InputBuffer::with_content(":"), visible: false, selected: 0, matches: commands }
    }

    /// Shows a hidden palette with the query `:` and the first match
    /// selected, or hides a visible one; once shown, the owner searches again.
    pub fn toggle(&mut self)
        ensures
            final(self).visible == !old(self).visible,
            final(self).matches == old(self).matches,
            final(self).visible ==> final(self).input.content@ == seq![':'] && final(self).input.cursor_pos == 1
                && final(self).selected == 0,
            !final(self).visible ==> final(self).input == old(self).input && final(self).selected == old(
                self).selected,
    {
        if self.visible {
            self.visible = false;
        } else {
            self.show();
        }
    }

    /// Shows the palette with the query `:` and the first match selected;
    /// the owner then searches again.
    pub fn show(&mut self)
        ensures
            final(self).visible,
            final(self).input.content@ == seq![':'],
            final(self).input.cursor_pos == 1,
            final(self).selected == 0,
            final(self).matches == old(self).matches,
    {
        proof {
            lemma_colon_byte();
        }
        self.visible = true;
        self.input = InputBuffer::with_content(":");
        self.selected = 0;
    }

    pub fn hide_palette(&mut self)
        ensures
            !final(self).visible,
            final(self).input == old(self).input,
            final(self).selected == old(self).selected,
            final(self).matches == old(self).matches,
    {
        self.visible = false;
    }

    pub fn is_visible(&self) -> (r: bool)
        ensures
            r == self.visible,
    {
        self.visible
    }

    /// The text to search the commands for: the input after its leading
    /// colons.
    pub fn query(&self) -> (r: String)
        ensures
            r@ == without_colons(self.input.content@),
    {
        let s = self.input.as_str();
        let mut out = String::new();
        let mut skipping = true;
        let ghost mut start: int = 0;
        for c in it: s.chars()
            invariant
                it.seq() == s@,
                s@ == self.input.content@,
                0 <= start <= it.index(),
                forall|j: int| 0 <= j < start ==> s@[j] == ':',
                skipping ==> start == it.index(),
                !skipping ==> start < it.index() && s@[start] != ':',
                out@ == s@.subrange(start, it.index() as int),
        {
            if skipping && c == ':' {
                proof {
                    start = start + 1;
                }
            } else {
                skipping = false;
                push_char(&mut out, c);
            }
        }
        proof {
            lemma_without_colons(s@, start);
        }
        out
    }

    /// Takes the names that the search found for the query.
    pub fn set_matches(&mut self, names: Vec<String>)
        ensures
            final(self).matches == names,
            final(self).input == old(self).input,
            final(self).visible == old(self).visible,
            final(self).selected == old(self).selected,
    {
        self.matches = names;
    }

    /// The name of the selected match (the last one where the selection is
    /// past the end); none when nothing matches.
    pub fn selected_command(&self) -> (r: Option<String>)
        ensures
            self.matches@.len() == 0 ==> r is None,
            self.matches@.len() > 0 ==> (r matches Some(name) && name@ == self.matches@[if self.selected
                < self.matches@.len() - 1 {
                self.selected as int
            } else {
                self.matches@.len() - 1
            }]@),
    {
        if self.matches.len() == 0 {
            return None;
        }
        let idx = if self.selected < self.matches.len() - 1 { self.selected } else { self.matches.len() - 1 };
        Some(copy_str(self.matches[idx].as_str()))
    }

    /// Handles a key while the palette is visible (`palette_key_step`); a
    /// hidden palette ignores every key.
    pub fn handle_key(&mut self, key: &KeyPress) -> (r: PaletteStep)
        requires
            old(self).visible ==> key_fits(
                old(self).input,
                *key,
                old(self).selected as int,
                old(self).matches@.len() as int,
            ),
        ensures
            !old(self).visible ==> r == PaletteStep::Nothing && *final(self) == *old(self),
            old(self).visible ==> final(self).matches == old(self).matches,
            old(self).visible ==> palette_key_step(*old(self), *key, *final(self), r),
    {
        if !self.visible {
            return PaletteStep::Nothing;
        }
        let n = self.matches.len();
        let plain = !key.ctrl && !key.alt && !key.shift;
        match &key.code {
            Key::Esc => {
                self.visible = false;
                PaletteStep::Close
            },
            Key::Enter => {
                self.visible = false;
                if n > 0 {
                    let idx = if self.selected < n - 1 { self.selected } else { n - 1 };
                    PaletteStep::Execute(idx)
                } else {
                    PaletteStep::Close
                }
            },
            Key::Backspace => {
                let ghost before = self.input;
                let removed = self.input.delete_char();
                proof {
                    if before.cursor_pos > 0 {
                        let c = removed->0;
                        assert(utf8(seq![c]).len() == utf8(seq![c]).len());
                    }
                }
                self.selected = 0;
                PaletteStep::Requery
            },
            Key::Up => {
                self.selected = up_exec(self.selected, n);
                PaletteStep::Nothing
            },
            Key::Down => {
                self.selected = down_exec(self.selected, n);
                PaletteStep::Nothing
            },
            Key::Char(c) => {
                if *c == 'k' && plain {
                    self.selected = up_exec(self.selected, n);
                    PaletteStep::Nothing
                } else if *c == 'j' && plain {
                    self.selected = down_exec(self.selected, n);
                    PaletteStep::Nothing
                } else if plain {
                    self.input.insert_char(*c);
                    self.selected = 0;
                    PaletteStep::Requery
                } else {
                    PaletteStep::Nothing
                }
            },
            Key::Tab => {
                if n > 0 {
                    self.selected = (self.selected + 1) % n;
                }
                PaletteStep::Nothing
            },
            Key::PageUp => {
                self.selected = if self.selected >= 10 { self.selected - 10 } else { 0 };
                PaletteStep::Nothing
            },
            Key::PageDown => {
                if n > 0 {
                    let t = self.selected + 10;
                    self.selected = if t < n - 1 { t } else { n - 1 };
                }
                PaletteStep::Nothing
            },
            Key::Home => {
                self.selected = 0;
                PaletteStep::Nothing
            },
            Key::End => {
                if n > 0 {
                    self.selected = n - 1;
                }
                PaletteStep::Nothing
            },
            _ => PaletteStep::Nothing,
        }
    }
}

/// The colon takes one byte.
proof fn lemma_colon_byte()
    ensures
        ":"@ == seq![':'],
        byte_len(":"@) == 1,
{
    reveal_strlit(":");
    assert(":"@ =~= seq![':']);
    assert(seq![':'].drop_first() =~= Seq::<char>::empty());
    assert(seq![':'][0] == ':');
    assert(vstd::utf8::encode_utf8(Seq::<char>::empty()) =~= Seq::<u8>::empty());
    assert(vstd::utf8::encode_scalar(':' as u32).len() == 1);
    assert(utf8(seq![':']) =~= vstd::utf8::encode_scalar(':' as u32));
}

/// With its first `k` characters colons, the text without leading colons
/// is that without the first `k`.
proof fn lemma_without_colons(s: Seq<char>, k: int)
    requires
        0 <= k <= s.len(),
        forall|j: int| 0 <= j < k ==> s[j] == ':',
        k < s.len() ==> s[k] != ':',
    ensures
        without_colons(s) == s.subrange(k, s.len() as int),
    decreases k,
{
    if k == 0 {
        assert(s.subrange(0, s.len() as int) =~= s);
    } else {
        lemma_without_colons(s.drop_first(), k - 1);
        assert(s.drop_first().subrange(k - 1, s.drop_first().len() as int) =~= s.subrange(k, s.len() as int));
    }
}

/// A key that moves the selection keeps a selection that is on a match on
/// one.
pub proof fn law_selection_stays_on_a_match(k: KeyPress, sel: int, n: int)
    requires
        0 <= sel < n,
    ensures
        moved_selection(k, sel, n) matches Some(s) ==> 0 <= s < n,
{
}

} // verus!
