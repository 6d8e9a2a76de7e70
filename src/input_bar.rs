use vstd::prelude::*;
use ropey::Rope;
use crate::keys::{KeyCode, KeyEvent};
use crate::width::{
    all_measurable, char_width, lemma_prefix_width_bounded, lemma_prefix_width_step,
    lemma_text_width_concat, lemma_text_width_single, measurable, text_width,
    width_of,
};

verus! {

#[verifier::external_type_specification]
#[verifier::external_body]
pub struct ExRope(ropey::Rope);

/// The characters that a rope holds, in order.
pub uninterp spec fn rope_chars(r: Rope) -> Seq<char>;

/// Relies on `ropey::Rope::new`: an empty rope.
pub assume_specification[ ropey::Rope::new ]() -> (r: Rope)
    ensures
        rope_chars(r) == Seq::<char>::empty(),
;

/// Relies on `ropey::Rope::len_chars`: the number of characters held.
pub assume_specification[ ropey::Rope::len_chars ](rope: &Rope) -> (r: usize)
    ensures
        r == rope_chars(*rope).len(),
;

/// Relies on `ropey::Rope::char`: the character at an index, which panics
/// past the end.
pub assume_specification[ ropey::Rope::char ](rope: &Rope, char_idx: usize) -> (r: char)
    requires
        char_idx < rope_chars(*rope).len(),
    ensures
        r == rope_chars(*rope)[char_idx as int],
;

/// Relies on `ropey::Rope::insert_char`: inserts one character before the
/// character index, which panics past the end.
pub assume_specification[ ropey::Rope::insert_char ](rope: &mut Rope, char_idx: usize, ch: char)
    requires
        char_idx <= rope_chars(*old(rope)).len(),
    ensures
        rope_chars(*final(rope)) == rope_chars(*old(rope)).insert(char_idx as int, ch),
;

/// Relies on `ropey::Rope::remove`: removes the characters of a range of
/// character indices, which panics when the range is reversed or runs past
/// the end.
#[verifier::external_body]
fn rope_remove(rope: &mut Rope, start: usize, end: usize)
    requires
        start <= end <= rope_chars(*old(rope)).len(),
    ensures
        rope_chars(*final(rope)) == rope_chars(*old(rope)).subrange(0, start as int) + rope_chars(
            *old(rope),
        ).subrange(end as int, rope_chars(*old(rope)).len() as int),
{
    rope.remove(start..end)
}

/// Relies on `Display` for `ropey::Rope`: it writes the rope's characters in
/// order.
#[verifier::external_body]
fn rope_text(rope: &Rope) -> (r: String)
    ensures
        r@ == rope_chars(*rope),
{
    rope.to_string()
}

/// What handling one key did to an input line.
pub enum VimCommandBarResult {
    /// The line stays open, changed or not.
    StillEditing,
    /// Erasing was asked of an empty line: close it without output.
    Aborted,
    /// The line was committed: its text, the line itself now empty.
    Finished(String),
}

/// Where one key leaves a line's text and cursor index, from text `s` with
/// the cursor at `i`. The column follows from the line's invariant.
pub open spec fn edit_effect(s: Seq<char>, i: nat, key: KeyEvent) -> (Seq<char>, nat) {
    match key.code {
        KeyCode::Char(c) => {
            if key.modifiers.control {
                if c == 'u' {
                    (Seq::<char>::empty(), 0)
                } else if c == 'a' {
                    (s, 0)
                } else {
                    (s, i)
                }
            } else if key.modifiers.alt {
                (s, i)
            } else if can_insert(s, c) {
                (s.insert(i as int, c), i + 1)
            } else {
                (s, i)
            }
        },
        KeyCode::Enter => (Seq::<char>::empty(), 0),
        KeyCode::Backspace => {
            if i > 0 {
                (s.remove(i - 1), (i - 1) as nat)
            } else {
                (s, i)
            }
        },
        KeyCode::Delete => {
            if i < s.len() {
                (s.remove(i as int), i)
            } else {
                (s, i)
            }
        },
        KeyCode::Left => {
            if i > 0 {
                (s, (i - 1) as nat)
            } else {
                (s, i)
            }
        },
        KeyCode::Right => {
            if i < s.len() {
                (s, i + 1)
            } else {
                (s, i)
            }
        },
        _ => (s, i),
    }
}

/// Whether `c` can go into a line holding `s`: it has a display width and
/// the line stays within the widest line allowed.
pub open spec fn can_insert(s: Seq<char>, c: char) -> bool {
    &&& measurable(c)
    &&& text_width(s) + width_of(c) <= MAX_LINE_WIDTH
    &&& s.len() < usize::MAX
}

/// An editable line of text with an insertion cursor, kept both as a
/// character index and as the display column where the caret stands.
pub struct VimBar {
    buffer: Rope,
    input_idx: usize,
    input_cursor_position: u16,
}

/// The largest total display width that a line may reach.
pub const MAX_LINE_WIDTH: u16 = 65535;

impl VimBar {
    /// The characters on the line.
    pub closed spec fn chars(&self) -> Seq<char> {
        rope_chars(self.buffer)
    }

    /// The cursor as a character index.
    pub closed spec fn index(&self) -> nat {
        self.input_idx as nat
    }

    /// The cursor as a display column.
    pub closed spec fn column(&self) -> nat {
        self.input_cursor_position as nat
    }

    /// The line's invariant: the cursor lies within the text, every character
    /// has a display width, the whole line fits the column type, and the
    /// column is the width of the characters before the cursor.
    pub open spec fn wf(&self) -> bool {
        &&& self.index() <= self.chars().len()
        &&& all_measurable(self.chars())
        &&& text_width(self.chars()) <= MAX_LINE_WIDTH
        &&& self.column() == text_width(self.chars().subrange(0, self.index() as int))
    }

    /// An empty line and the cursor at its start.
    pub open spec fn is_empty_at_start(&self) -> bool {
        &&& self.chars().len() == 0
        &&& self.index() == 0
        &&& self.column() == 0
    }

    pub fn new() -> (r: VimBar)
        ensures
            r.wf(),
            r.is_empty_at_start(),
    {
        let r = VimBar { buffer: Rope::new(), input_idx: 0, input_cursor_position: 0 };
        proof {
            assert(r.chars().subrange(0, 0) =~= Seq::<char>::empty());
        }
        r
    }

    pub fn buffer(&self) -> (r: &Rope)
        ensures
            rope_chars(*r) == self.chars(),
    {
        &self.buffer
    }

    pub fn input_cursor_position(&self) -> (r: u16)
        ensures
            r == self.column(),
    {
        self.input_cursor_position
    }

    /// The cursor as a character index.
    pub fn input_index(&self) -> (r: usize)
        ensures
            r == self.index(),
    {
        self.input_idx
    }

    /// The text on the line.
    pub fn text(&self) -> (r: String)
        ensures
            r@ == self.chars(),
    {
        rope_text(&self.buffer)
    }

    /// Empties the line and puts the cursor at its start.
    pub fn clear(&mut self)
        ensures
            final(self).wf(),
            final(self).is_empty_at_start(),
    {
        self.buffer = Rope::new();
        self.input_idx = 0;
        self.input_cursor_position = 0;
        proof {
            assert(self.chars().subrange(0, 0) =~= Seq::<char>::empty());
        }
    }

    /// Puts the cursor at the start of the line, keeping the text.
    pub fn goto_being(&mut self)
        requires
            old(self).wf(),
        ensures
            final(self).wf(),
            final(self).chars() == old(self).chars(),
            final(self).index() == 0,
            final(self).column() == 0,
    {
        self.input_idx = 0;
        self.input_cursor_position = 0;
        proof {
            assert(self.chars().subrange(0, 0) =~= Seq::<char>::empty());
        }
    }

    /// Inserts `c` at the cursor and moves the cursor past it.
    pub fn insert(&mut self, c: char)
        requires
            old(self).wf(),
            measurable(c),
            text_width(old(self).chars()) + width_of(c) <= MAX_LINE_WIDTH,
            old(self).chars().len() < usize::MAX,
        ensures
            final(self).wf(),
            final(self).chars() == old(self).chars().insert(old(self).index() as int, c),
            final(self).index() == old(self).index() + 1,
            final(self).column() == old(self).column() + width_of(c),
    {
        let ghost s = self.chars();
        let ghost i = self.index() as int;
        let w = char_width(c);
        let w: usize = match w {
            Some(w) => w,
            None => 0,
        };
        proof {
            lemma_prefix_width_bounded(s, i);
        }
        self.buffer.insert_char(self.input_idx, c);
        self.input_idx = self.input_idx + 1;
        self.input_cursor_position = self.input_cursor_position + w as u16;
        proof {
            let t = self.chars();
            assert(t =~= s.subrange(0, i) + seq![c] + s.subrange(i, s.len() as int));
            assert(t.subrange(0, i + 1) =~= s.subrange(0, i) + seq![c]);
            assert(s =~= s.subrange(0, i) + s.subrange(i, s.len() as int));
            lemma_text_width_concat(s.subrange(0, i), seq![c]);
            lemma_text_width_single(c);
            lemma_text_width_concat(s.subrange(0, i) + seq![c], s.subrange(i, s.len() as int));
            lemma_text_width_concat(s.subrange(0, i), s.subrange(i, s.len() as int));
            assert forall|k: int| 0 <= k < t.len() implies measurable(#[trigger] t[k]) by {
                if k < i {
                    assert(t[k] == s[k]);
                } else if k > i {
                    assert(t[k] == s[k - 1]);
                }
            }
        }
    }

    /// Moves the cursor one character left, if it is not at the start.
    pub fn move_left(&mut self)
        requires
            old(self).wf(),
        ensures
            final(self).wf(),
            final(self).chars() == old(self).chars(),
            old(self).index() > 0 ==> final(self).index() == old(self).index() - 1
                && final(self).column() == old(self).column() - width_of(
                old(self).chars()[old(self).index() - 1],
            ),
            old(self).index() == 0 ==> final(self).index() == 0 && final(self).column() == 0,
    {
        if self.input_idx > 0 {
            let ghost s = self.chars();
            let ghost i = self.index() as int;
            let last_c = self.buffer.char(self.input_idx - 1);
            let w = char_width(last_c);
            let w: usize = match w {
                Some(w) => w,
                None => 0,
            };
            proof {
                lemma_prefix_width_step(s, i - 1);
            }
            self.input_idx = self.input_idx - 1;
            self.input_cursor_position = self.input_cursor_position - w as u16;
        }
    }

    /// Moves the cursor one character right, if it is not at the end.
    pub fn move_right(&mut self)
        requires
            old(self).wf(),
        ensures
            final(self).wf(),
            final(self).chars() == old(self).chars(),
            old(self).index() < old(self).chars().len() ==> final(self).index() == old(self).index()
                + 1 && final(self).column() == old(self).column() + width_of(
                old(self).chars()[old(self).index() as int],
            ),
            old(self).index() == old(self).chars().len() ==> final(self).index() == old(
                self,
            ).index() && final(self).column() == old(self).column(),
    {
        if self.input_idx < self.buffer.len_chars() {
            let ghost s = self.chars();
            let ghost i = self.index() as int;
            let next_c = self.buffer.char(self.input_idx);
            let w = char_width(next_c);
            let w: usize = match w {
                Some(w) => w,
                None => 0,
            };
            proof {
                lemma_prefix_width_step(s, i);
                lemma_prefix_width_bounded(s, i + 1);
            }
            self.input_idx = self.input_idx + 1;
            self.input_cursor_position = self.input_cursor_position + w as u16;
        }
    }

    /// Removes the character before the cursor. On an empty line there is
    /// nothing to remove, and the line should close: `Aborted`.
    pub fn delete_before(&mut self) -> (r: VimCommandBarResult)
        requires
            old(self).wf(),
        ensures
            final(self).wf(),
            old(self).chars().len() == 0 <==> r is Aborted,
            old(self).chars().len() > 0 ==> r is StillEditing,
            old(self).index() == 0 ==> *final(self) == *old(self),
            old(self).index() > 0 ==> final(self).chars() == old(self).chars().remove(
                old(self).index() - 1,
            ) && final(self).index() == old(self).index() - 1 && final(self).column() == old(
                self,
            ).column() - width_of(old(self).chars()[old(self).index() - 1]),
    {
        if self.buffer.len_chars() == 0 {
            return VimCommandBarResult::Aborted;
        }
        if self.input_idx > 0 {
            let ghost s = self.chars();
            let ghost i = self.index() as int;
            let last_c = self.buffer.char(self.input_idx - 1);
            let w = char_width(last_c);
            let w: usize = match w {
                Some(w) => w,
                None => 0,
            };
            proof {
                lemma_prefix_width_step(s, i - 1);
            }
            self.input_cursor_position = self.input_cursor_position - w as u16;
            rope_remove(&mut self.buffer, self.input_idx - 1, self.input_idx);
            self.input_idx = self.input_idx - 1;
            proof {
                let t = self.chars();
                assert(t =~= s.remove(i - 1));
                assert(t.subrange(0, i - 1) =~= s.subrange(0, i - 1));
                Self::lemma_remove_keeps_width_bound(s, i - 1);
            }
        }
        VimCommandBarResult::StillEditing
    }

    /// Removes the character at the cursor, if there is one; the cursor
    /// stays where it is.
    pub fn delete_at_cursor(&mut self)
        requires
            old(self).wf(),
        ensures
            final(self).wf(),
            final(self).index() == old(self).index(),
            final(self).column() == old(self).column(),
            old(self).index() < old(self).chars().len() ==> final(self).chars() == old(
                self,
            ).chars().remove(old(self).index() as int),
            old(self).index() == old(self).chars().len() ==> final(self).chars() == old(
                self,
            ).chars(),
    {
        if self.input_idx < self.buffer.len_chars() {
            let ghost s = self.chars();
            let ghost i = self.index() as int;
            rope_remove(&mut self.buffer, self.input_idx, self.input_idx + 1);
            proof {
                let t = self.chars();
                assert(t =~= s.remove(i));
                assert(t.subrange(0, i) =~= s.subrange(0, i));
                Self::lemma_remove_keeps_width_bound(s, i);
            }
        }
    }

    /// Handles one key: a plain character is inserted (one without a
    /// display width, or one that would overflow the line, is ignored);
    /// Enter commits the line; Backspace erases backwards, or aborts an
    /// empty line; Delete erases forwards; Ctrl-U clears; Ctrl-A goes to the
    /// start; Left and Right move the cursor; any other key changes nothing.
    pub fn handle_input(&mut self, key: KeyEvent) -> (r: VimCommandBarResult)
        requires
            old(self).wf(),
        ensures
            final(self).wf(),
            r is Aborted <==> (key.code == KeyCode::Backspace && old(self).chars().len() == 0),
            r is Finished <==> key.code == KeyCode::Enter,
            r is Finished ==> r->Finished_0@ == old(self).chars(),
            r is Aborted ==> *final(self) == *old(self),
            !(r is Aborted) ==> (final(self).chars(), final(self).index()) == edit_effect(
                old(self).chars(),
                old(self).index(),
                key,
            ),
    {
        match key.code {
            KeyCode::Char(c) => {
                if key.modifiers.control {
                    if c == 'u' {
                        self.clear();
                    } else if c == 'a' {
                        self.goto_being();
                    }
                } else if !key.modifiers.alt {
                    let w = char_width(c);
                    let total = self.line_width();
                    match w {
                        Some(w) => {
                            if w <= (MAX_LINE_WIDTH as usize) && total <= MAX_LINE_WIDTH as usize
                                - w && self.buffer.len_chars() < usize::MAX {
                                self.insert(c);
                            }
                        },
                        None => {},
                    }
                }
                VimCommandBarResult::StillEditing
            },
            KeyCode::Enter => {
                let result = rope_text(&self.buffer);
                self.clear();
                VimCommandBarResult::Finished(result)
            },
            KeyCode::Backspace => self.delete_before(),
            KeyCode::Delete => {
                self.delete_at_cursor();
                VimCommandBarResult::StillEditing
            },
            KeyCode::Left => {
                self.move_left();
                VimCommandBarResult::StillEditing
            },
            KeyCode::Right => {
                self.move_right();
                VimCommandBarResult::StillEditing
            },
            _ => VimCommandBarResult::StillEditing,
        }
    }

    /// The display width of the whole line.
    pub fn line_width(&self) -> (r: usize)
        requires
            self.wf(),
        ensures
            r == text_width(self.chars()),
    {
        let n = self.buffer.len_chars();
        let mut i: usize = 0;
        let mut total: usize = 0;
        while i < n
            invariant
                self.wf(),
                n == self.chars().len(),
                i <= n,
                total == text_width(self.chars().subrange(0, i as int)),
            decreases n - i,
        {
            let c = self.buffer.char(i);
            let w = char_width(c);
            proof {
                lemma_prefix_width_step(self.chars(), i as int);
                lemma_prefix_width_bounded(self.chars(), i as int + 1);
            }
            match w {
                Some(w) => {
                    total = total + w;
                },
                None => {},
            }
            i = i + 1;
        }
        proof {
            assert(self.chars().subrange(0, n as int) =~= self.chars());
        }
        total
    }

    /// Removing a character keeps every character measurable and does not
    /// widen the text.
    proof fn lemma_remove_keeps_width_bound(s: Seq<char>, i: int)
        requires
            0 <= i < s.len(),
            all_measurable(s),
        ensures
            all_measurable(s.remove(i)),
            text_width(s.remove(i)) <= text_width(s),
    {
        let t = s.remove(i);
        assert forall|k: int| 0 <= k < t.len() implies measurable(#[trigger] t[k]) by {
            if k < i {
                assert(t[k] == s[k]);
            } else {
                assert(t[k] == s[k + 1]);
            }
        }
        let a = s.subrange(0, i);
        let b = s.subrange(i + 1, s.len() as int);
        assert(t =~= a + b);
        assert(s =~= a + seq![s[i]] + b);
        lemma_text_width_concat(a, b);
        lemma_text_width_concat(a + seq![s[i]], b);
        lemma_text_width_concat(a, seq![s[i]]);
    }
}

} // verus!
