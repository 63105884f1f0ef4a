//! Selection, scrolling, text input and focus-cycling state.

use vstd::prelude::*;

use crate::text::{chars_of, string_from_chars};

verus! {

// ── List selection with scroll ──────────────────────────────────────

/// Selection index, scroll offset and item count of a list.
#[derive(Debug, Clone, Copy)]
pub struct PickerState {
    pub selected_index: usize,
    pub scroll: u16,
    pub total_items: usize,
}

/// A selection kept within a list of `total` items: the last item when it
/// lies past a non-empty list, else unchanged.
pub open spec fn clamped_selection(selected: usize, total: nat) -> usize {
    if selected >= total && total > 0 {
        (total - 1) as usize
    } else {
        selected
    }
}

/// The scroll offset after making `selected` visible in a viewport of
/// `height` rows scrolled to `scroll` (a zero height leaves it alone).
pub open spec fn scrolled_to_show(selected: usize, scroll: u16, height: usize) -> u16 {
    if height == 0 {
        scroll
    } else if selected < scroll {
        selected as u16
    } else if selected >= scroll + height {
        (selected - height + 1) as u16
    } else {
        scroll
    }
}

/// After scrolling to show the selection in a non-empty viewport, the
/// selection lies within the viewport.
pub proof fn lemma_scroll_shows_selection(selected: usize, scroll: u16, height: usize)
    requires
        height > 0,
        selected <= u16::MAX,
    ensures
        scrolled_to_show(selected, scroll, height) <= selected < scrolled_to_show(selected, scroll, height) + height,
{
}

impl PickerState {
    /// A list of `total_items` with the first item selected.
    pub fn new(total_items: usize) -> (r: PickerState)
        ensures
            r.selected_index == 0,
            r.scroll == 0,
            r.total_items == total_items,
    {
        PickerState { selected_index: 0, scroll: 0, total_items }
    }

    /// Select the previous item (stays at the first).
    pub fn select_prev(&mut self)
        ensures
            final(self).selected_index == if old(self).selected_index > 0 {
                (old(self).selected_index - 1) as usize
            } else {
                0
            },
            final(self).scroll == old(self).scroll,
            final(self).total_items == old(self).total_items,
    {
        if self.selected_index > 0 {
            self.selected_index = self.selected_index - 1;
        }
    }

    /// Select the next item (stays at the last).
    pub fn select_next(&mut self)
        ensures
            final(self).selected_index == if old(self).selected_index + 1 < old(self).total_items {
                (old(self).selected_index + 1) as usize
            } else {
                old(self).selected_index
            },
            final(self).scroll == old(self).scroll,
            final(self).total_items == old(self).total_items,
    {
        if self.selected_index < self.total_items && self.selected_index + 1 < self.total_items {
            self.selected_index = self.selected_index + 1;
        }
    }

    /// Select `index` when it is in the list.
    pub fn select(&mut self, index: usize)
        ensures
            final(self).selected_index == if index < old(self).total_items {
                index
            } else {
                old(self).selected_index
            },
            final(self).scroll == old(self).scroll,
            final(self).total_items == old(self).total_items,
    {
        if index < self.total_items {
            self.selected_index = index;
        }
    }

    /// Scroll so that the selected item lies in a viewport of `viewport_height` rows.
    pub fn ensure_visible(&mut self, viewport_height: usize)
        ensures
            final(self).scroll == scrolled_to_show(
                old(self).selected_index,
                old(self).scroll,
                viewport_height,
            ),
            final(self).selected_index == old(self).selected_index,
            final(self).total_items == old(self).total_items,
    {
        if viewport_height == 0 {
            return ;
        }
        if self.selected_index < self.scroll as usize {
            self.scroll = self.selected_index as u16;
        } else if self.selected_index - self.scroll as usize >= viewport_height {
            self.scroll = (self.selected_index - viewport_height + 1) as u16;
        }
    }

    /// Change the item count, pulling the selection back into a non-empty list.
    pub fn set_total(&mut self, total: usize)
        ensures
            final(self).total_items == total,
            final(self).selected_index == clamped_selection(old(self).selected_index, total as nat),
            final(self).scroll == old(self).scroll,
    {
        self.total_items = total;
        if self.selected_index >= total && total > 0 {
            self.selected_index = total - 1;
        }
    }
}

// ── Tree selection with scroll ──────────────────────────────────────

/// Selection index and scroll offset of the flat command list.
#[derive(Debug, Clone, Copy)]
pub struct TreeState {
    pub selected_index: usize,
    pub scroll: u16,
}

/// The scroll offset the command list uses to show `selected` in `height` rows.
pub open spec fn tree_scrolled_to_show(selected: usize, scroll: u16, height: usize) -> u16 {
    if selected < scroll {
        selected as u16
    } else if selected >= scroll + height {
        (selected - height + 1) as u16
    } else {
        scroll
    }
}

impl TreeState {
    /// The first item selected, unscrolled.
    pub fn new() -> (r: TreeState)
        ensures
            r.selected_index == 0,
            r.scroll == 0,
    {
        TreeState { selected_index: 0, scroll: 0 }
    }

    /// Select the previous item (stays at the first).
    pub fn select_prev(&mut self)
        ensures
            final(self).selected_index == if old(self).selected_index > 0 {
                (old(self).selected_index - 1) as usize
            } else {
                0
            },
            final(self).scroll == old(self).scroll,
    {
        self.selected_index = self.selected_index.saturating_sub(1);
    }

    /// Select the next of `total_visible` items (stays at the last).
    pub fn select_next(&mut self, total_visible: usize)
        ensures
            final(self).selected_index == if old(self).selected_index + 1 < total_visible {
                (old(self).selected_index + 1) as usize
            } else {
                old(self).selected_index
            },
            final(self).scroll == old(self).scroll,
    {
        if self.selected_index < total_visible && self.selected_index + 1 < total_visible {
            self.selected_index = self.selected_index + 1;
        }
    }

    /// Scroll so that the selected item lies in `viewport_height` rows.
    pub fn ensure_visible(&mut self, viewport_height: usize)
        requires
            old(self).selected_index < usize::MAX,
        ensures
            final(self).scroll == tree_scrolled_to_show(
                old(self).selected_index,
                old(self).scroll,
                viewport_height,
            ),
            final(self).selected_index == old(self).selected_index,
    {
        if self.selected_index < self.scroll as usize {
            self.scroll = self.selected_index as u16;
        } else if self.selected_index - self.scroll as usize >= viewport_height {
            self.scroll = (self.selected_index - viewport_height + 1) as u16;
        }
    }
}

// ── Text input ──────────────────────────────────────────────────────

/// A line of text with a cursor (counted in characters).
#[derive(Debug, Clone)]
pub struct TextInput {
    pub chars: Vec<char>,
    pub cursor: usize,
}

impl TextInput {
    /// Whether the cursor lies within the text.
    pub open spec fn wf(self) -> bool {
        self.cursor <= self.chars@.len()
    }

    /// Empty text, cursor at the start.
    pub fn empty() -> (r: TextInput)
        ensures
            r.chars@.len() == 0,
            r.cursor == 0,
            r.wf(),
    {
        TextInput { chars: Vec::new(), cursor: 0 }
    }

    /// Replace the text; the cursor moves to its end.
    pub fn set_text(&mut self, text: &str)
        ensures
            final(self).chars@ == text@,
            final(self).cursor == text@.len(),
            final(self).wf(),
    {
        self.chars = chars_of(text);
        self.cursor = self.chars.len();
    }

    /// Empty the text.
    pub fn clear(&mut self)
        ensures
            final(self).chars@.len() == 0,
            final(self).cursor == 0,
            final(self).wf(),
    {
        self.chars = Vec::new();
        self.cursor = 0;
    }

    /// The text.
    pub fn text(&self) -> (r: String)
        ensures
            r@ == self.chars@,
    {
        string_from_chars(&self.chars)
    }

    /// Insert `c` at the cursor and move the cursor past it.
    pub fn insert_char(&mut self, c: char)
        requires
            old(self).wf(),
        ensures
            final(self).wf(),
           
            final(self).chars@ == old(self).chars@.insert(old(self).cursor as int, c),
            final(self).cursor == old(self).cursor + 1,
    {
        self.chars.insert(self.cursor, c);
        let n = self.chars.len();
        assert(self.cursor < n);
        self.cursor = self.cursor + 1;
    }

    /// Delete the character before the cursor; false at the start.
    pub fn delete_char_backward(&mut self) -> (r: bool)
        requires
            old(self).wf(),
        ensures
            final(self).wf(),
           
            r == (old(self).cursor > 0),
            r ==> final(self).chars@ == old(self).chars@.remove(old(self).cursor - 1)
                && final(self).cursor == old(self).cursor - 1,
            !r ==> final(self).chars@ == old(self).chars@ && final(self).cursor == old(self).cursor,
    {
        if self.cursor == 0 {
            return false;
        }
        self.cursor = self.cursor - 1;
        self.chars.remove(self.cursor);
        true
    }

    /// Delete the character after the cursor; false at the end.
    pub fn delete_char_forward(&mut self) -> (r: bool)
        requires
            old(self).wf(),
        ensures
            final(self).wf(),
           
            r == (old(self).cursor < old(self).chars@.len()),
            r ==> final(self).chars@ == old(self).chars@.remove(old(self).cursor as int),
            !r ==> final(self).chars@ == old(self).chars@,
            final(self).cursor == old(self).cursor,
    {
        if self.cursor < self.chars.len() {
            self.chars.remove(self.cursor);
            true
        } else {
            false
        }
    }

    /// Move the cursor one character left (stays at the start).
    pub fn move_left(&mut self)
        requires
            old(self).wf(),
        ensures
            final(self).wf(),
           
            final(self).chars@ == old(self).chars@,
            final(self).cursor == if old(self).cursor > 0 {
                (old(self).cursor - 1) as usize
            } else {
                0
            },
    {
        if self.cursor > 0 {
            self.cursor = self.cursor - 1;
        }
    }

    /// Move the cursor one character right (stays at the end).
    pub fn move_right(&mut self)
        requires
            old(self).wf(),
        ensures
            final(self).wf(),
           
            final(self).chars@ == old(self).chars@,
            final(self).cursor == if old(self).cursor < old(self).chars@.len() {
                (old(self).cursor + 1) as usize
            } else {
                old(self).cursor
            },
    {
        if self.cursor < self.chars.len() {
            self.cursor = self.cursor + 1;
        }
    }

    /// Move the cursor to the start.
    pub fn move_home(&mut self)
        ensures
            final(self).wf(),
            final(self).chars@ == old(self).chars@,
            final(self).cursor == 0,
    {
        self.cursor = 0;
    }

    /// Move the cursor to the end.
    pub fn move_end(&mut self)
        ensures
            final(self).wf(),
            final(self).chars@ == old(self).chars@,
            final(self).cursor == old(self).chars@.len(),
    {
        self.cursor = self.chars.len();
    }

    /// The text before the cursor.
    pub fn text_before_cursor(&self) -> (r: String)
        requires
            self.wf(),
        ensures
            r@ == self.chars@.subrange(0, self.cursor as int),
    {
        let mut v: Vec<char> = Vec::new();
        let mut i: usize = 0;
        while i < self.cursor
            invariant
                self.wf(),
                i <= self.cursor,
                v@ == self.chars@.subrange(0, i as int),
            decreases self.cursor - i,
        {
            v.push(self.chars[i]);
            assert(self.chars@.subrange(0, i + 1) =~= self.chars@.subrange(0, i as int).push(
                self.chars@[i as int],
            ));
            i = i + 1;
        }
        string_from_chars(&v)
    }

    /// The text after the cursor.
    pub fn text_after_cursor(&self) -> (r: String)
        requires
            self.wf(),
        ensures
            r@ == self.chars@.subrange(self.cursor as int, self.chars@.len() as int),
    {
        let mut v: Vec<char> = Vec::new();
        let mut i: usize = self.cursor;
        while i < self.chars.len()
            invariant
                self.wf(),
                self.cursor <= i <= self.chars@.len(),
                v@ == self.chars@.subrange(self.cursor as int, i as int),
            decreases self.chars.len() - i,
        {
            v.push(self.chars[i]);
            assert(self.chars@.subrange(self.cursor as int, i + 1) =~= self.chars@.subrange(
                self.cursor as int,
                i as int,
            ).push(self.chars@[i as int]));
            i = i + 1;
        }
        string_from_chars(&v)
    }
}

/// Typing a character and then deleting backward restores the text and cursor.
pub proof fn lemma_insert_then_backspace(chars: Seq<char>, cursor: int, c: char)
    requires
        0 <= cursor <= chars.len(),
    ensures
        chars.insert(cursor, c).remove(cursor) == chars,
{
    assert(chars.insert(cursor, c).remove(cursor) =~= chars);
}

} // verus!
