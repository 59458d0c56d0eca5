//! The scrollable, selectable list over the filtered log entries.
//!
//! The viewer holds only transient view state; every frame it is handed a
//! fresh snapshot of the store and the filter. Selection is always kept
//! inside the filtered bounds, and when the selection sat on the last entry
//! it follows the tail as new entries arrive.

use vstd::prelude::*;

use crate::filter::{filter_logs, spec_matches};
use crate::keys::KeyInput;
use crate::log_store::HttpLog;
use crate::text::{push_spaces, spaces};

verus! {

/// The view state of the log list: which entry is selected, how far the
/// list is scrolled, how many entries the last frame showed, whether the
/// detail popup is open, and how many rows fit on screen.
pub struct ProxyList {
    pub selected_index: usize,
    pub scroll_offset: usize,
    pub items_len: usize,
    pub show_popup: bool,
    pub visible_height: usize,
}

impl ProxyList {
    /// The selection always lies inside the listed bounds while anything
    /// is listed.
    pub open spec fn wf(&self) -> bool {
        self.items_len > 0 ==> self.selected_index < self.items_len
    }

    pub fn new() -> (r: Self)
        ensures
            r.wf(),
            r.selected_index == 0,
            r.scroll_offset == 0,
            r.items_len == 0,
            !r.show_popup,
            r.visible_height == 10,
    {
        ProxyList {
            selected_index: 0,
            scroll_offset: 0,
            items_len: 0,
            show_popup: false,
            visible_height: 10,
        }
    }

    /// Recomputes how many rows fit: the drawing area height minus the two
    /// border rows.
    pub fn set_visible_height(&mut self, area_height: u16)
        ensures
            final(self).visible_height == if area_height >= 2 {
                area_height - 2
            } else {
                0
            },
            final(self).selected_index == old(self).selected_index,
            final(self).scroll_offset == old(self).scroll_offset,
            final(self).items_len == old(self).items_len,
            final(self).show_popup == old(self).show_popup,
    {
        self.visible_height = if area_height >= 2 {
            (area_height - 2) as usize
        } else {
            0
        };
    }

    /// Handles one key press. `count` is how many entries the current
    /// frame lists. Returns whether a redraw should be requested.
    ///
    /// While the popup is open, `esc` or `q` closes it and every other key
    /// is ignored. Otherwise `down`/`j` and `up`/`k` move the selection by
    /// one inside the listed bounds, pulling the scroll offset along so the
    /// selection stays in the visible window, and `enter` on a valid
    /// selection opens the popup.
    pub fn handle_key(&mut self, key: KeyInput, count: usize) -> (render: bool)
        requires
            old(self).wf(),
        ensures
            final(self).wf(),
            final(self).items_len == old(self).items_len,
            final(self).visible_height == old(self).visible_height,
            old(self).show_popup ==> popup_key_ensures(*old(self), key, *final(self), render),
            !old(self).show_popup ==> browse_key_ensures(*old(self), key, count, *final(self), render),
    {
        if self.show_popup {
            match key {
                KeyInput::Esc | KeyInput::Char('q') => {
                    self.show_popup = false;
                    true
                }
                _ => false,
            }
        } else {
            match key {
                KeyInput::Down | KeyInput::Char('j') => {
                    let limit = if self.items_len >= 1 {
                        self.items_len - 1
                    } else {
                        0
                    };
                    if self.selected_index < limit {
                        self.selected_index = self.selected_index + 1;
                        let vh1 = if self.visible_height >= 1 {
                            self.visible_height - 1
                        } else {
                            0
                        };
                        if self.selected_index > vh1 && self.selected_index - vh1 > self.scroll_offset {
                            self.scroll_offset = self.selected_index - vh1;
                        }
                        true
                    } else {
                        false
                    }
                }
                KeyInput::Up | KeyInput::Char('k') => {
                    if self.selected_index > 0 {
                        self.selected_index = self.selected_index - 1;
                        if self.selected_index < self.scroll_offset {
                            self.scroll_offset = self.selected_index;
                        }
                        true
                    } else {
                        false
                    }
                }
                KeyInput::Enter => {
                    if self.selected_index < count {
                        self.show_popup = true;
                        true
                    } else {
                        false
                    }
                }
                _ => false,
            }
        }
    }

    /// Reconciles the view state with the `new_len` entries the current
    /// frame lists.
    ///
    /// If the selection sat on the last listed entry and the list grew,
    /// the selection follows to the new last entry (scrolling so it stays
    /// visible); otherwise the selection keeps its absolute index and is
    /// only clamped when it now lies past the end.
    pub fn reconcile(&mut self, new_len: usize)
        ensures
            final(self).wf(),
            final(self).items_len == new_len,
            final(self).show_popup == old(self).show_popup,
            final(self).visible_height == old(self).visible_height,
            (old(self).items_len > 0 && old(self).selected_index == old(self).items_len - 1
                && new_len > old(self).items_len) ==> {
                &&& final(self).selected_index == new_len - 1
                &&& final(self).scroll_offset == (if new_len > old(self).visible_height {
                    (new_len - old(self).visible_height) as usize
                } else {
                    old(self).scroll_offset
                })
            },
            !(old(self).items_len > 0 && old(self).selected_index == old(self).items_len - 1
                && new_len > old(self).items_len) ==> {
                &&& final(self).selected_index == (if old(self).selected_index >= new_len
                    && new_len > 0 {
                    (new_len - 1) as usize
                } else {
                    old(self).selected_index
                })
                &&& final(self).scroll_offset == old(self).scroll_offset
            },
            new_len > 0 ==> final(self).selected_index < new_len,
    {
        let was_at_bottom = self.items_len > 0 && self.selected_index == self.items_len - 1;
        if was_at_bottom && new_len > self.items_len {
            self.selected_index = new_len - 1;
            if new_len > self.visible_height {
                self.scroll_offset = new_len - self.visible_height;
            }
        } else {
            if self.selected_index >= new_len && new_len > 0 {
                self.selected_index = new_len - 1;
            }
        }
        self.items_len = new_len;
    }

    /// How far the scrollbar can travel: the number of rows that do not
    /// fit on screen.
    pub fn scroll_content_length(&self) -> (r: usize)
        ensures
            r == if self.items_len > self.visible_height {
                self.items_len - self.visible_height
            } else {
                0
            },
    {
        if self.items_len > self.visible_height {
            self.items_len - self.visible_height
        } else {
            0
        }
    }
}

/// What a key does while the popup is open: `esc` or `q` closes it, any
/// other key changes nothing.
pub open spec fn popup_key_ensures(
    s: ProxyList,
    key: KeyInput,
    t: ProxyList,
    render: bool,
) -> bool {
    if key == KeyInput::Esc || key == KeyInput::Char('q') {
        &&& !t.show_popup
        &&& render
        &&& t.selected_index == s.selected_index
        &&& t.scroll_offset == s.scroll_offset
    } else {
        t == s && !render
    }
}

/// What a key does while browsing: exact next selection, scroll offset and
/// popup flag for each key the list acts on.
pub open spec fn browse_key_ensures(
    s: ProxyList,
    key: KeyInput,
    count: usize,
    t: ProxyList,
    render: bool,
) -> bool {
    if key == KeyInput::Down || key == KeyInput::Char('j') {
        if s.items_len > 0 && s.selected_index < s.items_len - 1 {
            let vh1 = if s.visible_height >= 1 {
                (s.visible_height - 1) as int
            } else {
                0
            };
            &&& t.selected_index == s.selected_index + 1
            &&& t.scroll_offset == (if s.selected_index + 1 > s.scroll_offset + vh1 {
                s.selected_index + 1 - vh1
            } else {
                s.scroll_offset as int
            })
            &&& t.show_popup == s.show_popup
            &&& render
        } else {
            t == s && !render
        }
    } else if key == KeyInput::Up || key == KeyInput::Char('k') {
        if s.selected_index > 0 {
            &&& t.selected_index == s.selected_index - 1
            &&& t.scroll_offset == (if s.selected_index - 1 < s.scroll_offset {
                s.selected_index - 1
            } else {
                s.scroll_offset as int
            })
            &&& t.show_popup == s.show_popup
            &&& render
        } else {
            t == s && !render
        }
    } else if key == KeyInput::Enter {
        if s.selected_index < count {
            &&& t.show_popup
            &&& t.selected_index == s.selected_index
            &&& t.scroll_offset == s.scroll_offset
            &&& render
        } else {
            t == s && !render
        }
    } else {
        t == s && !render
    }
}

impl ProxyList {
    /// The whole per-frame computation of the list view: recompute the
    /// visible height from the drawing area, filter a fresh snapshot,
    /// reconcile the selection with the filtered count, and build the
    /// display line of every filtered entry.
    ///
    /// Returns the display lines and the filtered entries they show, in
    /// stored order. Afterwards the selection lies inside the filtered
    /// bounds whenever anything is listed, and a selection that sat on
    /// the last entry has followed the tail.
    pub fn frame_view(&mut self, snapshot: &Vec<HttpLog>, filter: &str, area_height: u16) -> (r: (
        Vec<String>,
        Vec<HttpLog>,
    ))
        ensures
            ({
                let filtered = snapshot@.filter(|l: HttpLog| spec_matches(l.uri@, filter@));
                &&& r.1@ == filtered
                &&& r.0@.len() == filtered.len()
                &&& forall|k: int|
                    0 <= k < r.0@.len() ==> r.0@[k]@ == row_text(filtered[k])
                &&& final(self).wf()
                &&& final(self).items_len == filtered.len()
                &&& final(self).show_popup == old(self).show_popup
                &&& final(self).visible_height == (if area_height >= 2 {
                    area_height - 2
                } else {
                    0
                })
                &&& filtered.len() > 0 ==> final(self).selected_index < filtered.len()
                &&& (old(self).items_len > 0 && old(self).selected_index == old(self).items_len
                    - 1 && filtered.len() > old(self).items_len) ==> final(self).selected_index
                    == filtered.len() - 1
            }),
    {
        self.set_visible_height(area_height);
        let filtered = filter_logs(snapshot, filter);
        self.reconcile(filtered.len());
        let mut rows: Vec<String> = Vec::new();
        let n = filtered.len();
        for i in 0..n
            invariant
                n == filtered@.len(),
                rows@.len() == i,
                forall|k: int| 0 <= k < i ==> rows@[k]@ == row_text(filtered@[k]),
        {
            rows.push(row_line(&filtered[i]));
        }
        (rows, filtered)
    }
}

/// Left-aligned padding of a method name to eight columns.
pub open spec fn pad_to_8(m: Seq<char>) -> Seq<char> {
    if m.len() < 8 {
        m + spaces((8 - m.len()) as nat)
    } else {
        m
    }
}

/// The text of one list row: the arrival time in brackets, the padded
/// method, then the URI.
pub open spec fn row_text(l: HttpLog) -> Seq<char> {
    "["@ + l.time_hms@ + "] "@ + pad_to_8(l.method@) + " "@ + l.uri@
}

/// Builds the display line for one entry.
pub fn row_line(log: &HttpLog) -> (r: String)
    ensures
        r@ == row_text(*log),
{
    let mut s = String::new();
    s.append("[");
    s.append(log.time_hms.as_str());
    s.append("] ");
    s.append(log.method.as_str());
    let mlen = log.method.as_str().unicode_len();
    if mlen < 8 {
        push_spaces(&mut s, 8 - mlen);
    }
    s.append(" ");
    s.append(log.uri.as_str());
    proof {
        assert(s@ =~= row_text(*log));
    }
    s
}

} // verus!
