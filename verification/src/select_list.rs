//! Scrolling of a drawn selection list: how many item rows fit between its
//! borders, how far it is scrolled to keep the selection in view, and
//! whether a scrollbar is drawn.
use vstd::prelude::*;

use crate::choice_select::{compute_scroll_offset, scroll_offset_spec};

verus! {

/// The item rows left in `height` rows once the top and bottom borders that
/// are drawn have taken theirs.
pub open spec fn rows_between_borders(height: u16, top_border: bool, bottom_border: bool) -> nat {
    let borders: int = (if top_border { 1int } else { 0int }) + (if bottom_border { 1int } else { 0int });
    if height >= borders {
        (height - borders) as nat
    } else {
        0
    }
}

/// Scroll state of a drawn list: the items scrolled past the top and the
/// number of item rows in view.
#[derive(Debug, Clone, Copy, PartialEq, Eq, Structural)]
pub struct SelectListScrollState {
    /// Items scrolled past the top.
    pub scroll_offset: usize,
    /// Item rows in the viewport.
    pub visible_items: usize,
}

impl Default for SelectListScrollState {
    fn default() -> (r: Self)
        ensures
            r.scroll_offset == 0,
            r.visible_items == 0,
    {
        SelectListScrollState { scroll_offset: 0, visible_items: 0 }
    }
}

impl SelectListScrollState {
    /// The scroll state of a list `height` rows tall, with the given borders
    /// drawn, whose selected item is `selected`: the rows between the
    /// borders, scrolled just far enough that the selection is the last
    /// row in view when it would otherwise be below it.
    pub fn for_viewport(selected: Option<usize>, height: u16, top_border: bool, bottom_border: bool) -> (r: Self)
        ensures
            r.visible_items == rows_between_borders(height, top_border, bottom_border),
            r.scroll_offset == scroll_offset_spec(selected, r.visible_items),
            selected is Some && r.visible_items > 0 ==> r.scroll_offset <= selected->0 && selected->0
                < r.scroll_offset + r.visible_items,
    {
        let borders: u16 = (if top_border { 1u16 } else { 0u16 }) + (if bottom_border { 1u16 } else { 0u16 });
        let visible_items = height.saturating_sub(borders) as usize;
        let scroll_offset = compute_scroll_offset(selected, visible_items);
        SelectListScrollState { scroll_offset, visible_items }
    }

    /// The scrollbar of a list of `total_items` items in this state, when the
    /// items overflow a viewport of at least one row: the length it scrolls
    /// over (the items that do not fit) and its position (the offset).
    pub fn scrollbar(&self, total_items: usize) -> (r: Option<(usize, usize)>)
        ensures
            r is Some <==> total_items > self.visible_items && self.visible_items > 0,
            r matches Some((length, position)) ==> length == total_items - self.visible_items
                && position == self.scroll_offset,
    {
        if total_items > self.visible_items && self.visible_items > 0 {
            Some((total_items - self.visible_items, self.scroll_offset))
        } else {
            None
        }
    }
}

} // verus!
