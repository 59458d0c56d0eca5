//! The filter input widget's editing state.
//!
//! A single line of text with a cursor, edited one key at a time. The
//! widget is the sole writer of the shared filter string: after each
//! editing key the runtime publishes the current value.

use vstd::prelude::*;

use crate::keys::KeyInput;
use crate::text::chars_to_string;

verus! {

/// A line of text under edit, with the cursor between characters.
pub struct Input {
    pub chars: Vec<char>,
    pub cursor: usize,
}

impl Input {
    /// The cursor always lies inside the text, end position included.
    pub open spec fn wf(&self) -> bool {
        self.cursor <= self.chars@.len()
    }

    pub fn new() -> (r: Self)
        ensures
            r.wf(),
            r.chars@ == Seq::<char>::empty(),
            r.cursor == 0,
    {
        Input { chars: Vec::new(), cursor: 0 }
    }

    /// The edited text.
    pub fn value(&self) -> (r: String)
        ensures
            r@ == self.chars@,
    {
        chars_to_string(&self.chars)
    }

    /// Handles one editing key. Returns whether the text changed, so the
    /// caller knows to publish the new filter value.
    ///
    /// A character is inserted at the cursor; backspace removes the
    /// character before it and delete the one under it; the arrow, home
    /// and end keys only move the cursor.
    pub fn handle_key(&mut self, key: KeyInput) -> (changed: bool)
        requires
            old(self).wf(),
            old(self).chars@.len() < usize::MAX,
        ensures
            final(self).wf(),
            match key {
                KeyInput::Char(c) => {
                    &&& final(self).chars@ == old(self).chars@.insert(old(self).cursor as int, c)
                    &&& final(self).cursor == old(self).cursor + 1
                    &&& changed
                },
                KeyInput::Backspace => if old(self).cursor > 0 {
                    &&& final(self).chars@ == old(self).chars@.remove(old(self).cursor - 1)
                    &&& final(self).cursor == old(self).cursor - 1
                    &&& changed
                } else {
                    *final(self) == *old(self) && !changed
                },
                KeyInput::Delete => if old(self).cursor < old(self).chars@.len() {
                    &&& final(self).chars@ == old(self).chars@.remove(old(self).cursor as int)
                    &&& final(self).cursor == old(self).cursor
                    &&& changed
                } else {
                    *final(self) == *old(self) && !changed
                },
                KeyInput::Left => {
                    &&& final(self).chars@ == old(self).chars@
                    &&& final(self).cursor == (if old(self).cursor > 0 {
                        old(self).cursor - 1
                    } else {
                        0int
                    })
                    &&& !changed
                },
                KeyInput::Right => {
                    &&& final(self).chars@ == old(self).chars@
                    &&& final(self).cursor == (if old(self).cursor < old(self).chars@.len() {
                        old(self).cursor + 1
                    } else {
                        old(self).cursor as int
                    })
                    &&& !changed
                },
                KeyInput::Home => {
                    &&& final(self).chars@ == old(self).chars@
                    &&& final(self).cursor == 0
                    &&& !changed
                },
                KeyInput::End => {
                    &&& final(self).chars@ == old(self).chars@
                    &&& final(self).cursor == old(self).chars@.len()
                    &&& !changed
                },
                _ => *final(self) == *old(self) && !changed,
            },
    {
        match key {
            KeyInput::Char(c) => {
                self.chars.insert(self.cursor, c);
                self.cursor = self.cursor + 1;
                true
            }
            KeyInput::Backspace => {
                if self.cursor > 0 {
                    self.chars.remove(self.cursor - 1);
                    self.cursor = self.cursor - 1;
                    true
                } else {
                    false
                }
            }
            KeyInput::Delete => {
                if self.cursor < self.chars.len() {
                    self.chars.remove(self.cursor);
                    true
                } else {
                    false
                }
            }
            KeyInput::Left => {
                if self.cursor > 0 {
                    self.cursor = self.cursor - 1;
                }
                false
            }
            KeyInput::Right => {
                if self.cursor < self.chars.len() {
                    self.cursor = self.cursor + 1;
                }
                false
            }
            KeyInput::Home => {
                self.cursor = 0;
                false
            }
            KeyInput::End => {
                self.cursor = self.chars.len();
                false
            }
            _ => false,
        }
    }

    /// The three parts of the rendered line: the text before the cursor,
    /// the character shown in the cursor block (a space when the cursor
    /// sits at the end), and the text after the cursor.
    pub fn cursor_segments(&self) -> (r: (String, char, String))
        requires
            self.wf(),
        ensures
            r.0@ == self.chars@.take(self.cursor as int),
            r.1 == (if self.cursor < self.chars@.len() {
                self.chars@[self.cursor as int]
            } else {
                ' '
            }),
            r.2@ == (if self.cursor + 1 <= self.chars@.len() {
                self.chars@.skip(self.cursor + 1)
            } else {
                Seq::<char>::empty()
            }),
    {
        let mut before: Vec<char> = Vec::new();
        for i in 0..self.cursor
            invariant
                self.cursor <= self.chars@.len(),
                before@ == self.chars@.take(i as int),
        {
            before.push(self.chars[i]);
            proof {
                assert(before@ =~= self.chars@.take(i + 1 as int));
            }
        }
        let at = if self.cursor < self.chars.len() {
            self.chars[self.cursor]
        } else {
            ' '
        };
        let mut after: Vec<char> = Vec::new();
        if self.cursor < self.chars.len() {
            let mut i = self.cursor + 1;
            let n = self.chars.len();
            while i < n
                invariant
                    n == self.chars@.len(),
                    self.cursor + 1 <= i <= n,
                    after@ == self.chars@.subrange(self.cursor + 1, i as int),
                decreases n - i,
            {
                after.push(self.chars[i]);
                i = i + 1;
                proof {
                    assert(after@ =~= self.chars@.subrange(self.cursor + 1, i as int));
                }
            }
            proof {
                assert(self.chars@.subrange(self.cursor + 1, n as int) =~= self.chars@.skip(
                    self.cursor + 1,
                ));
            }
        }
        (chars_to_string(&before), at, chars_to_string(&after))
    }
}

} // verus!
