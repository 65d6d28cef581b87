//! A single-line text editor with a cursor, used for inline rename and
//! create prompts.
use vstd::prelude::*;

use crate::text::{chars_of, string_from_chars};

verus! {

/// Whether a character breaks a line (`'\n'` or `'\r'`).
pub open spec fn is_line_break(c: char) -> bool {
    c == '\n' || c == '\r'
}

/// The text with every line break removed.
pub open spec fn strip_line_breaks(s: Seq<char>) -> Seq<char>
    decreases s.len(),
{
    if s.len() == 0 {
        s
    } else if is_line_break(s.last()) {
        strip_line_breaks(s.drop_last())
    } else {
        strip_line_breaks(s.drop_last()).push(s.last())
    }
}

/// Number of bytes that `c` takes in UTF-8.
pub open spec fn char_utf8_len(c: char) -> nat {
    if (c as u32) < 0x80 {
        1
    } else if (c as u32) < 0x800 {
        2
    } else if (c as u32) < 0x10000 {
        3
    } else {
        4
    }
}

/// Number of bytes that `s` takes in UTF-8.
pub open spec fn utf8_len(s: Seq<char>) -> nat
    decreases s.len(),
{
    if s.len() == 0 {
        0
    } else {
        utf8_len(s.drop_last()) + char_utf8_len(s.last())
    }
}

/// `n` clipped to the `usize` range.
pub open spec fn min_usize(n: nat) -> nat {
    if n > usize::MAX { usize::MAX as nat } else { n }
}

/// The buffer holds `text` with the cursor before the character at position
/// `cursor` (counted in characters). The text never holds a line break.
#[derive(Debug, PartialEq, Eq)]
pub struct InputBuffer {
    text: String,
    cursor: usize,
}

/// Abstract contents of an [`InputBuffer`]: its characters and the cursor
/// position counted in characters.
pub struct InputView {
    pub text: Seq<char>,
    pub cursor: nat,
}

impl View for InputBuffer {
    type V = InputView;

    closed spec fn view(&self) -> InputView {
        InputView { text: self.text@, cursor: self.cursor as nat }
    }
}

/// Every buffer: the cursor lies within the text and the text has no line break.
pub open spec fn input_wf(v: InputView) -> bool {
    &&& v.cursor <= v.text.len()
    &&& forall|i: int| 0 <= i < v.text.len() ==> !is_line_break(#[trigger] v.text[i])
}

proof fn lemma_strip_has_no_breaks(s: Seq<char>)
    ensures
        forall|i: int| 0 <= i < strip_line_breaks(s).len() ==> !is_line_break(#[trigger] strip_line_breaks(s)[i]),
    decreases s.len(),
{
    if s.len() > 0 {
        lemma_strip_has_no_breaks(s.drop_last());
        let r = strip_line_breaks(s.drop_last());
        if !is_line_break(s.last()) {
            assert forall|i: int| 0 <= i < r.push(s.last()).len() implies !is_line_break(#[trigger] r.push(s.last())[i]) by {
                if i < r.len() {
                    assert(r.push(s.last())[i] == r[i]);
                }
            }
        }
    }
}

fn utf8_len_of(c: char) -> (n: usize)
    ensures
        n == char_utf8_len(c),
{
    let u = c as u32;
    if u < 0x80 {
        1
    } else if u < 0x800 {
        2
    } else if u < 0x10000 {
        3
    } else {
        4
    }
}

impl InputBuffer {
    #[verifier::type_invariant]
    closed spec fn inv(&self) -> bool {
        input_wf(self@)
    }

    /// An empty buffer.
    pub fn new() -> (b: Self)
        ensures
            b@.text == Seq::<char>::empty(),
            b@.cursor == 0,
    {
        InputBuffer { text: String::new(), cursor: 0 }
    }

    /// A buffer holding `text` without its line breaks, with the cursor at the end.
    pub fn from_text(text: &str) -> (b: Self)
        ensures
            b@.text == strip_line_breaks(text@),
            b@.cursor == b@.text.len(),
    {
        let cs = sanitize_single_line(text);
        let n = cs.len();
        let s = string_from_chars(cs.as_slice());
        proof { lemma_strip_has_no_breaks(text@); }
        InputBuffer { text: s, cursor: n }
    }

    /// The current text.
    pub fn as_str(&self) -> (s: &str)
        ensures
            s@ == self@.text,
    {
        self.text.as_str()
    }

    /// The cursor as a byte offset into the UTF-8 text (clipped at `usize::MAX`,
    /// a bound no text held in memory reaches).
    pub fn cursor(&self) -> (offset: usize)
        ensures
            offset == min_usize(utf8_len(self@.text.subrange(0, self@.cursor as int))),
    {
        proof { use_type_invariant(self); }
        let cs = chars_of(self.text.as_str());
        let mut total: usize = 0;
        let mut i: usize = 0;
        while i < self.cursor
            invariant
                cs@ == self@.text,
                i <= self.cursor,
                self.cursor <= cs@.len(),
                total == min_usize(utf8_len(cs@.subrange(0, i as int))),
            decreases self.cursor - i,
        {
            assert(cs@.subrange(0, i + 1).drop_last() == cs@.subrange(0, i as int));
            let w = utf8_len_of(cs[i]);
            if total > usize::MAX - w {
                total = usize::MAX;
            } else {
                total = total + w;
            }
            i = i + 1;
        }
        total
    }

    /// The text before the cursor and the text after it.
    pub fn split_at_cursor(&self) -> (parts: (String, String))
        ensures
            parts.0@ == self@.text.subrange(0, self@.cursor as int),
            parts.1@ == self@.text.subrange(self@.cursor as int, self@.text.len() as int),
    {
        proof { use_type_invariant(self); }
        let cs = chars_of(self.text.as_str());
        let mut head: Vec<char> = Vec::new();
        let mut tail: Vec<char> = Vec::new();
        let mut i: usize = 0;
        while i < cs.len()
            invariant
                i <= cs@.len(),
                cs@ == self@.text,
                self@.cursor <= cs@.len(),
                self.cursor == self@.cursor,
                head@ == cs@.subrange(0, if i < self.cursor { i as int } else { self.cursor as int }),
                tail@ == cs@.subrange(self.cursor as int, if i < self.cursor { self.cursor as int } else { i as int }),
            decreases cs@.len() - i,
        {
            if i < self.cursor {
                head.push(cs[i]);
            } else {
                tail.push(cs[i]);
            }
            i = i + 1;
            assert(head@ =~= cs@.subrange(0, if i < self.cursor { i as int } else { self.cursor as int }));
            assert(tail@ =~= cs@.subrange(self.cursor as int, if i < self.cursor { self.cursor as int } else { i as int }));
        }
        (string_from_chars(head.as_slice()), string_from_chars(tail.as_slice()))
    }

    /// Whether the text is empty.
    pub fn is_empty(&self) -> (b: bool)
        ensures
            b == (self@.text.len() == 0),
    {
        let cs = chars_of(self.text.as_str());
        cs.len() == 0
    }

    /// Removes all text.
    pub fn clear(&mut self)
        ensures
            final(self)@.text == Seq::<char>::empty(),
            final(self)@.cursor == 0,
    {
        *self = InputBuffer { text: String::new(), cursor: 0 };
    }

    /// Replaces the text by `text` without its line breaks; the cursor moves to the end.
    pub fn set_text(&mut self, text: &str)
        ensures
            final(self)@.text == strip_line_breaks(text@),
            final(self)@.cursor == final(self)@.text.len(),
    {
        *self = InputBuffer::from_text(text);
    }

    /// Inserts `ch` at the cursor and moves the cursor past it; a line break is refused.
    /// Counted in bytes, the cursor moves by the UTF-8 length of `ch`, and the
    /// buffer stays a single line with the cursor inside it.
    pub fn insert_char(&mut self, ch: char) -> (changed: bool)
        ensures
            changed == !is_line_break(ch),
            !changed ==> final(self)@ == old(self)@,
            changed ==> final(self)@.text == old(self)@.text.insert(old(self)@.cursor as int, ch),
            changed ==> final(self)@.cursor == old(self)@.cursor + 1,
            changed ==> utf8_len(final(self)@.text.subrange(0, final(self)@.cursor as int)) == utf8_len(
                old(self)@.text.subrange(0, old(self)@.cursor as int),
            ) + char_utf8_len(ch),
            input_wf(final(self)@),
    {
        proof { use_type_invariant(&*self); }
        if ch == '\n' || ch == '\r' {
            return false;
        }
        let mut cs = chars_of(self.text.as_str());
        let k = self.cursor;
        cs.insert(k, ch);
        let ghost old_text = self@.text;
        assert forall|i: int| 0 <= i < cs@.len() implies !is_line_break(#[trigger] cs@[i]) by {
            if i < k {
                assert(cs@[i] == old_text[i]);
            } else if i > k {
                assert(cs@[i] == old_text[i - 1]);
            }
        }
        let s = string_from_chars(cs.as_slice());
        proof {
            assert(cs@.subrange(0, k + 1).drop_last() =~= old_text.subrange(0, k as int));
            assert(cs@.subrange(0, k + 1).last() == ch);
        }
        *self = InputBuffer { text: s, cursor: k + 1 };
        true
    }

    /// Inserts the characters of `text` one by one; reports whether any was inserted.
    pub fn insert_str(&mut self, text: &str) -> (changed: bool)
        ensures
            final(self)@.text == old(self)@.text.subrange(0, old(self)@.cursor as int)
                + strip_line_breaks(text@) + old(self)@.text.subrange(old(self)@.cursor as int, old(self)@.text.len() as int),
            final(self)@.cursor == old(self)@.cursor + strip_line_breaks(text@).len(),
            changed == (strip_line_breaks(text@).len() > 0),
    {
        proof { use_type_invariant(&*self); }
        let cs = chars_of(text);
        let ghost pre = self@.text.subrange(0, self@.cursor as int);
        let ghost post = self@.text.subrange(self@.cursor as int, self@.text.len() as int);
        let mut changed = false;
        let mut i: usize = 0;
        proof {
            assert(cs@.subrange(0, 0) == Seq::<char>::empty());
            assert(self@.text == pre + Seq::<char>::empty() + post);
        }
        while i < cs.len()
            invariant
                cs@ == text@,
                i <= cs@.len(),
                self@.text == pre + strip_line_breaks(cs@.subrange(0, i as int)) + post,
                self@.cursor == pre.len() + strip_line_breaks(cs@.subrange(0, i as int)).len(),
                changed == (strip_line_breaks(cs@.subrange(0, i as int)).len() > 0),
            decreases cs@.len() - i,
        {
            proof { use_type_invariant(&*self); }
            let ghost before = strip_line_breaks(cs@.subrange(0, i as int));
            let c = cs[i];
            let inserted = self.insert_char(c);
            changed = changed || inserted;
            proof {
                let next = cs@.subrange(0, i + 1);
                assert(next.drop_last() == cs@.subrange(0, i as int));
                if inserted {
                    assert(strip_line_breaks(next) == before.push(c));
                    assert((pre + before + post).insert((pre + before).len() as int, c)
                        =~= pre + before.push(c) + post);
                } else {
                    assert(strip_line_breaks(next) == before);
                }
            }
            i = i + 1;
        }
        proof {
            assert(cs@.subrange(0, cs@.len() as int) == cs@);
        }
        changed
    }

    /// Deletes the character before the cursor.
    pub fn backspace(&mut self) -> (changed: bool)
        ensures
            changed == (old(self)@.cursor > 0),
            !changed ==> final(self)@ == old(self)@,
            changed ==> final(self)@.text == old(self)@.text.remove(old(self)@.cursor - 1),
            changed ==> final(self)@.cursor == old(self)@.cursor - 1,
    {
        if self.cursor == 0 {
            return false;
        }
        proof { use_type_invariant(&*self); }
        let mut cs = chars_of(self.text.as_str());
        let k = self.cursor - 1;
        let ghost old_text = self@.text;
        cs.remove(k);
        assert forall|i: int| 0 <= i < cs@.len() implies !is_line_break(#[trigger] cs@[i]) by {
            if i < k {
                assert(cs@[i] == old_text[i]);
            } else {
                assert(cs@[i] == old_text[i + 1]);
            }
        }
        let s = string_from_chars(cs.as_slice());
        *self = InputBuffer { text: s, cursor: k };
        true
    }

    /// Deletes the character after the cursor.
    pub fn delete(&mut self) -> (changed: bool)
        ensures
            changed == (old(self)@.cursor < old(self)@.text.len()),
            !changed ==> final(self)@ == old(self)@,
            changed ==> final(self)@.text == old(self)@.text.remove(old(self)@.cursor as int),
            changed ==> final(self)@.cursor == old(self)@.cursor,
    {
        proof { use_type_invariant(&*self); }
        let mut cs = chars_of(self.text.as_str());
        let k = self.cursor;
        if k >= cs.len() {
            return false;
        }
        let ghost old_text = self@.text;
        cs.remove(k);
        assert forall|i: int| 0 <= i < cs@.len() implies !is_line_break(#[trigger] cs@[i]) by {
            if i < k {
                assert(cs@[i] == old_text[i]);
            } else {
                assert(cs@[i] == old_text[i + 1]);
            }
        }
        let s = string_from_chars(cs.as_slice());
        *self = InputBuffer { text: s, cursor: k };
        true
    }

    /// Moves the cursor one character left.
    pub fn move_left(&mut self) -> (changed: bool)
        ensures
            changed == (old(self)@.cursor > 0),
            final(self)@.text == old(self)@.text,
            final(self)@.cursor == if changed { (old(self)@.cursor - 1) as nat } else { old(self)@.cursor },
    {
        if self.cursor == 0 {
            return false;
        }
        proof { use_type_invariant(&*self); }
        let k = self.cursor - 1;
        let t = self.take_text();
        *self = InputBuffer { text: t, cursor: k };
        true
    }

    /// Moves the cursor one character right.
    pub fn move_right(&mut self) -> (changed: bool)
        ensures
            changed == (old(self)@.cursor < old(self)@.text.len()),
            final(self)@.text == old(self)@.text,
            final(self)@.cursor == if changed { old(self)@.cursor + 1 } else { old(self)@.cursor },
    {
        proof { use_type_invariant(&*self); }
        let n = self.char_count();
        if self.cursor >= n {
            return false;
        }
        let k = self.cursor + 1;
        let t = self.take_text();
        *self = InputBuffer { text: t, cursor: k };
        true
    }

    /// Moves the cursor to the start.
    pub fn move_home(&mut self) -> (changed: bool)
        ensures
            changed == (old(self)@.cursor > 0),
            final(self)@.text == old(self)@.text,
            final(self)@.cursor == 0,
    {
        if self.cursor == 0 {
            return false;
        }
        proof { use_type_invariant(&*self); }
        let t = self.take_text();
        *self = InputBuffer { text: t, cursor: 0 };
        true
    }

    /// Moves the cursor to the end.
    pub fn move_end(&mut self) -> (changed: bool)
        ensures
            changed == (old(self)@.cursor != old(self)@.text.len()),
            final(self)@.text == old(self)@.text,
            final(self)@.cursor == old(self)@.text.len(),
    {
        proof { use_type_invariant(&*self); }
        let n = self.char_count();
        if self.cursor == n {
            return false;
        }
        let t = self.take_text();
        *self = InputBuffer { text: t, cursor: n };
        true
    }

    fn char_count(&self) -> (n: usize)
        ensures
            n == self@.text.len(),
    {
        chars_of(self.text.as_str()).len()
    }

    fn take_text(&mut self) -> (t: String)
        ensures
            t@ == old(self)@.text,
            final(self)@.text == old(self)@.text,
            final(self)@.cursor == old(self)@.cursor,
    {
        self.text.clone()
    }
}

impl Clone for InputBuffer {
    fn clone(&self) -> (b: Self)
        ensures
            b@ == self@,
    {
        proof { use_type_invariant(self); }
        InputBuffer { text: self.text.clone(), cursor: self.cursor }
    }
}

impl Default for InputBuffer {
    fn default() -> (b: Self)
        ensures
            b@.text == Seq::<char>::empty(),
            b@.cursor == 0,
    {
        InputBuffer::new()
    }
}

/// The characters of `text` with every line break removed.
fn sanitize_single_line(text: &str) -> (cs: Vec<char>)
    ensures
        cs@ == strip_line_breaks(text@),
{
    let all = chars_of(text);
    let mut cs: Vec<char> = Vec::new();
    let mut i: usize = 0;
    assert(all@.subrange(0, 0) == Seq::<char>::empty());
    while i < all.len()
        invariant
            all@ == text@,
            i <= all@.len(),
            cs@ == strip_line_breaks(all@.subrange(0, i as int)),
        decreases all@.len() - i,
    {
        let c = all[i];
        proof {
            let next = all@.subrange(0, i + 1);
            assert(next.drop_last() == all@.subrange(0, i as int));
        }
        if c != '\n' && c != '\r' {
            cs.push(c);
        }
        i = i + 1;
    }
    assert(all@.subrange(0, all@.len() as int) == all@);
    cs
}

} // verus!
