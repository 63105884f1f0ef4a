//! Shared state and logic of the list panels (flags, args): selection with
//! filter-aware movement, inline editing, the embedded choice box, focus
//! loss and mouse handling.

use vstd::prelude::*;

use crate::choice_select::{
    choice_key_effect, scroll_offset_spec, ChoiceOverlayPlan, ChoiceSelectAction,
    ChoiceSelectComponent,
};
use crate::events::{EventResult, KeyCode, KeyPress, MouseInput, MouseKind};
use crate::geometry::{hovered_index_for_area, item_at, item_at_spec, sat_add, sat_sub, Rect};
use crate::list_state::{PickerState, TextInput};
use crate::matching::{
    adjacent_key_match, compute_match_scores, find_adjacent_match, find_first_match,
    first_key_match, item_scores, last_key_index, score_get, FilterableItem, ScoreTable,
};
use crate::text::{string_of, views};

verus! {

/// Result from inline editing key handling.
#[derive(Debug)]
pub enum EditEvent {
    /// Value changed during editing (live sync).
    ValueChanged { index: usize, value: String },
    /// Editing finished (Enter/Esc committed).
    EditFinished { index: usize, value: String },
    /// Key consumed internally (cursor move, etc.).
    Consumed,
}

/// Result from choice select key handling.
#[derive(Debug)]
pub enum ChoiceEvent {
    /// User selected a value.
    Selected { index: usize, value: String },
    /// User cancelled, keeping typed text.
    Cancelled { index: usize, value: String },
    /// Key consumed by the choice select.
    Consumed,
}

/// Result from mouse event handling in a list panel.
#[derive(Debug)]
pub enum MouseResult {
    /// A choice select item was clicked — yields a ChoiceEvent.
    ChoiceClicked(ChoiceEvent),
    /// An item was clicked and it was already selected (activate/enter behavior).
    ClickActivate(usize),
    /// An item was clicked and selected (no activation).
    ItemSelected(usize),
    /// The mouse event was consumed internally (scroll, overlay dismiss, etc.).
    Consumed,
    /// The mouse event was not handled by this panel.
    NotHandled,
}

/// Result from a focus-lost transition in a list panel.
#[derive(Debug)]
pub enum FocusLostEvent {
    /// Inline editing finished and should be committed by the parent.
    EditFinished { index: usize, value: String },
    /// Focus loss closed local UI state without any parent action.
    Consumed,
    /// The panel had no focus-local state to clean up.
    NotHandled,
}

/// Shared state for list-based panel components.
#[derive(Debug)]
pub struct ListPanelBase {
    /// List selection/scroll state.
    pub list_state: PickerState,
    /// Whether this panel has keyboard focus.
    pub focused: bool,
    /// Whether filter input is actively being typed (used for border color).
    pub filter_active: bool,
    /// Current filter text (may persist after typing mode ends).
    pub filter_text: String,
    /// Match scores keyed by item name.
    pub match_scores: ScoreTable,
    /// Ordered item keys matching the visible list.
    pub item_keys: Vec<String>,
    /// Cached filterable items for standalone score computation.
    pub filterable_items: Vec<FilterableItem>,
    /// Mouse hover index (computed during render from mouse_position + area).
    pub hovered_index: Option<usize>,
    /// Current mouse position.
    pub mouse_position: Option<(u16, u16)>,
    /// Inline edit state.
    pub editing: bool,
    pub edit_input: TextInput,
    /// Embedded choice select component.
    pub choice_select: ChoiceSelectComponent,
    /// Which item index has the choice select open.
    pub choice_select_index: Option<usize>,
    /// X-offset from panel left to the value column.
    pub value_column: u16,
}

/// Where a choice box opened on item `index` is anchored in a panel drawn
/// in `area`: one row high on the item's row (inside the top border, less
/// the scroll), from one left of the value column to the panel's right
/// edge; coordinates saturate at the largest one.
pub open spec fn choice_anchor(area: Rect, index: usize, scroll: u16, value_column: u16) -> Rect {
    let row: int = if index >= scroll {
        index - scroll
    } else {
        0
    };
    let y = sat_add(sat_add(area.y, 1), if row > u16::MAX {
        u16::MAX
    } else {
        row as u16
    });
    let x = sat_add(area.x, sat_sub(value_column, 1));
    let w = sat_sub(area.width, sat_sub(value_column, 1));
    Rect { x, y, width: (sat_add(x, w) - x) as u16, height: (sat_add(y, 1) - y) as u16 }
}

/// `new` and `r` are what a click on visible choice `index` of `old`'s open
/// box gives, as a mouse result: the choice is picked (and the box closed)
/// when the index is in the list, else nothing changes.
pub open spec fn choice_click_result(old: ListPanelBase, index: usize, new: ListPanelBase, r: MouseResult) -> bool {
    match old.choice_select_index {
        None => r is Consumed && new == old,
        Some(item) => match old.choice_select.state {
            Some(s) => if index < s.filtered().len() {
                (r matches MouseResult::ChoiceClicked(ChoiceEvent::Selected { index: i, value }) && i == item
                    && value@ == s.filtered()[index as int].1) && new.choice_select.state is None
                    && new.choice_select_index is None && !new.editing
            } else {
                (r matches MouseResult::ChoiceClicked(ChoiceEvent::Consumed)) && new == old
            },
            None => (r matches MouseResult::ChoiceClicked(ChoiceEvent::Consumed)) && new == old,
        },
    }
}

/// What a click at `(col, row)` does while the choice box drawn in
/// `overlay_rect` is open: inside the box above its bottom border it picks
/// the row under the mouse, counting the box's scroll; anywhere else it
/// closes the box.
pub open spec fn choice_click_effect(
    old: ListPanelBase,
    col: u16,
    row: u16,
    overlay_rect: Option<Rect>,
    new: ListPanelBase,
    r: MouseResult,
) -> bool {
    if overlay_rect matches Some(rect) && rect.contains_spec(col, row) && row < rect.y + sat_sub(rect.height, 1) {
        let rect = overlay_rect->0;
        let scroll = scroll_offset_spec(old.choice_select.selected_spec(), sat_sub(rect.height, 1) as usize);
        let off = row - rect.y;
        if scroll + off <= usize::MAX {
            choice_click_result(old, (scroll + off) as usize, new, r)
        } else {
            r is Consumed && new == old
        }
    } else {
        r is Consumed && new == (ListPanelBase {
            choice_select: ChoiceSelectComponent { state: None, ..old.choice_select },
            choice_select_index: None,
            ..old
        })
    }
}

/// The selection after moving to `idx` with `select`: taken when in the list.
pub open spec fn selected_after(s: PickerState, idx: int) -> usize {
    if 0 <= idx < s.total_items {
        idx as usize
    } else {
        s.selected_index
    }
}

impl ListPanelBase {
    /// The inputs keep their cursors within their text.
    pub open spec fn wf(self) -> bool {
        self.edit_input.wf() && self.choice_select.wf()
    }

    /// Whether movement skips to matching items: a filter is typed and scored.
    pub open spec fn filtering(self) -> bool {
        self.filter_text@.len() > 0 && self.match_scores.entries@.len() > 0
    }

    /// The selection after Up.
    pub open spec fn up_selection(self) -> usize {
        if self.filtering() {
            match adjacent_key_match(
                self.item_keys@,
                self.match_scores.entries@,
                self.list_state.selected_index as int,
                false,
            ) {
                Some(i) => selected_after(self.list_state, i),
                None => self.list_state.selected_index,
            }
        } else if self.list_state.selected_index > 0 {
            (self.list_state.selected_index - 1) as usize
        } else {
            0
        }
    }

    /// The selection after Down.
    pub open spec fn down_selection(self) -> usize {
        if self.filtering() {
            match adjacent_key_match(
                self.item_keys@,
                self.match_scores.entries@,
                self.list_state.selected_index as int,
                true,
            ) {
                Some(i) => selected_after(self.list_state, i),
                None => self.list_state.selected_index,
            }
        } else if self.list_state.selected_index + 1 < self.list_state.total_items {
            (self.list_state.selected_index + 1) as usize
        } else {
            self.list_state.selected_index
        }
    }

    /// `new` is `self` with only the selection changed, to `sel`.
    pub open spec fn selects(self, new: Self, sel: usize) -> bool {
        new == (ListPanelBase {
            list_state: PickerState { selected_index: sel, ..self.list_state },
            ..self
        })
    }

    /// A panel with no items, no filter, no focus and nothing open.
    pub open spec fn is_fresh(self) -> bool {
        &&& self.wf()
        &&& self.list_state == (PickerState { selected_index: 0, scroll: 0, total_items: 0 })
        &&& !self.focused
        &&& !self.filter_active
        &&& self.filter_text@.len() == 0
        &&& self.match_scores.entries@.len() == 0
        &&& self.item_keys@.len() == 0
        &&& self.filterable_items@.len() == 0
        &&& self.hovered_index is None
        &&& self.mouse_position is None
        &&& !self.editing
        &&& self.edit_input.chars@.len() == 0
        &&& self.choice_select.state is None
        &&& self.choice_select.mouse_position is None
        &&& self.choice_select_index is None
        &&& self.value_column == 0
    }

    /// A panel with no items, no filter and nothing open.
    pub fn new() -> (r: ListPanelBase)
        ensures
            r.is_fresh(),
    {
        ListPanelBase {
            list_state: PickerState::new(0),
            focused: false,
            filter_active: false,
            filter_text: String::new(),
            match_scores: ScoreTable::new(),
            item_keys: Vec::new(),
            filterable_items: Vec::new(),
            hovered_index: None,
            mouse_position: None,
            editing: false,
            edit_input: TextInput::empty(),
            choice_select: ChoiceSelectComponent::new(),
            choice_select_index: None,
            value_column: 0,
        }
    }

    // ── Selection / navigation ──────────────────────────────────────

    /// The selected index.
    pub fn selected_index(&self) -> (r: usize)
        ensures
            r == self.list_state.selected_index,
    {
        self.list_state.selected_index
    }

    /// Change the item count, pulling the selection into a non-empty list.
    pub fn set_total(&mut self, total: usize)
        ensures
            *final(self) == (ListPanelBase {
                list_state: PickerState {
                    total_items: total,
                    selected_index: if old(self).list_state.selected_index >= total && total > 0 {
                        (total - 1) as usize
                    } else {
                        old(self).list_state.selected_index
                    },
                    ..old(self).list_state
                },
                ..*old(self)
            }),
    {
        self.list_state.set_total(total);
    }

    /// Select `index` when it is in the list.
    pub fn select(&mut self, index: usize)
        ensures
            old(self).selects(*final(self), selected_after(old(self).list_state, index as int)),
    {
        self.list_state.select(index);
    }

    /// Scroll so that the selection is visible in `viewport_height` rows.
    pub fn ensure_visible(&mut self, viewport_height: usize)
        ensures
            *final(self) == (ListPanelBase {
                list_state: PickerState {
                    scroll: crate::list_state::scrolled_to_show(
                        old(self).list_state.selected_index,
                        old(self).list_state.scroll,
                        viewport_height,
                    ),
                    ..old(self).list_state
                },
                ..*old(self)
            }),
    {
        self.list_state.ensure_visible(viewport_height);
    }

    /// Set the scroll offset directly.
    pub fn set_scroll(&mut self, scroll: usize)
        ensures
            *final(self) == (ListPanelBase {
                list_state: PickerState { scroll: scroll as u16, ..old(self).list_state },
                ..*old(self)
            }),
    {
        self.list_state.scroll = #[verifier::truncate] (scroll as u16);
    }

    /// Move selection up. Filter-aware when scores are present.
    pub fn move_up(&mut self)
        ensures
            old(self).selects(*final(self), old(self).up_selection()),
    {
        if self.filter_text.unicode_len() > 0 && !self.match_scores.is_empty() {
            let current = self.list_state.selected_index;
            if let Some(idx) = find_adjacent_match(&self.item_keys, &self.match_scores, current, false) {
                self.list_state.select(idx);
            }
        } else {
            self.list_state.select_prev();
        }
    }

    /// Move selection down. Filter-aware when scores are present.
    pub fn move_down(&mut self)
        ensures
            old(self).selects(*final(self), old(self).down_selection()),
    {
        if self.filter_text.unicode_len() > 0 && !self.match_scores.is_empty() {
            let current = self.list_state.selected_index;
            if let Some(idx) = find_adjacent_match(&self.item_keys, &self.match_scores, current, true) {
                self.list_state.select(idx);
            }
        } else {
            self.list_state.select_next();
        }
    }

    /// Auto-select the first matching item if the current selection doesn't
    /// match; whether it moved.
    pub fn auto_select_next_match(&mut self) -> (r: bool)
        ensures
            r == (old(self).match_scores.entries@.len() > 0 && (first_key_match(
                old(self).item_keys@,
                old(self).match_scores.entries@,
                old(self).list_state.selected_index as int,
            ) matches Some(i) && i != old(self).list_state.selected_index)),
            r ==> old(self).selects(
                *final(self),
                selected_after(
                    old(self).list_state,
                    first_key_match(
                        old(self).item_keys@,
                        old(self).match_scores.entries@,
                        old(self).list_state.selected_index as int,
                    )->0,
                ),
            ),
            !r ==> *final(self) == *old(self),
    {
        if self.match_scores.is_empty() {
            return false;
        }
        let current = self.list_state.selected_index;
        if let Some(idx) = find_first_match(&self.item_keys, &self.match_scores, current) {
            if idx != current {
                self.list_state.select(idx);
                return true;
            }
        }
        false
    }

    // ── Focus / hover ───────────────────────────────────────────────

    /// Set whether the panel has focus.
    pub fn set_focused(&mut self, focused: bool)
        ensures
            *final(self) == (ListPanelBase { focused, ..*old(self) }),
    {
        self.focused = focused;
    }

    /// The panel gains focus.
    pub fn handle_focus_gained(&mut self)
        ensures
            *final(self) == (ListPanelBase { focused: true, ..*old(self) }),
    {
        self.focused = true;
    }

    /// The panel loses focus: an open choice box closes (committing its typed
    /// text when a value was being edited), and inline editing finishes.
    pub fn handle_focus_lost(&mut self) -> (r: FocusLostEvent)
        requires
            old(self).wf(),
        ensures
            final(self).wf(),
            !final(self).focused,
            final(self).list_state == old(self).list_state,
            final(self).filter_text == old(self).filter_text,
            final(self).match_scores == old(self).match_scores,
            final(self).item_keys == old(self).item_keys,
            final(self).choice_select.state is None,
            !final(self).editing,
            old(self).choice_select.state is Some ==> final(self).choice_select_index is None,
            old(self).choice_select.state is Some && old(self).editing ==> (r matches FocusLostEvent::EditFinished { index, value }
                && index == (match old(self).choice_select_index {
                Some(i) => i,
                None => old(self).list_state.selected_index,
            }) && value@ == old(self).choice_select.typed_spec()),
            old(self).choice_select.state is Some && !old(self).editing ==> r is Consumed,
            old(self).choice_select.state is None && old(self).editing ==> (r matches FocusLostEvent::EditFinished { index, value }
                && index == old(self).list_state.selected_index && value@
                == old(self).edit_input.chars@),
            old(self).choice_select.state is None && !old(self).editing ==> r is NotHandled
                && *final(self) == (ListPanelBase { focused: false, ..*old(self) }),
    {
        self.focused = false;
        if self.choice_select.is_open() {
            if self.editing {
                let index = match self.choice_select_index {
                    Some(i) => i,
                    None => self.list_state.selected_index,
                };
                let value = self.choice_select.typed_text();
                self.close_choice_select();
                self.editing = false;
                return FocusLostEvent::EditFinished { index, value };
            }
            self.close_choice_select();
            return FocusLostEvent::Consumed;
        }
        if self.editing {
            let index = self.list_state.selected_index;
            let value = self.finish_editing();
            return FocusLostEvent::EditFinished { index, value };
        }
        FocusLostEvent::NotHandled
    }

    /// Set the hovered index.
    pub fn set_hovered_index(&mut self, idx: Option<usize>)
        ensures
            *final(self) == (ListPanelBase { hovered_index: idx, ..*old(self) }),
    {
        self.hovered_index = idx;
    }

    /// Set the mouse position.
    pub fn set_mouse_position(&mut self, pos: Option<(u16, u16)>)
        ensures
            *final(self) == (ListPanelBase { mouse_position: pos, ..*old(self) }),
    {
        self.mouse_position = pos;
    }

    /// Record the hovered item from the mouse position (none when unfocused).
    pub fn compute_hovered_index(&mut self, area: Rect)
        requires
            area.wf(),
        ensures
            *final(self) == (ListPanelBase {
                hovered_index: if !old(self).focused {
                    None
                } else {
                    match old(self).mouse_position {
                        Some((col, row)) => match item_at_spec(area, col, row, old(self).list_state.scroll as usize) {
                            Some(i) => Some(i as usize),
                            None => None,
                        },
                        None => None,
                    }
                },
                ..*old(self)
            }),
    {
        self.hovered_index = if self.focused {
            self.hovered_index_for_area(area)
        } else {
            None
        };
    }

    /// The item under the mouse in the panel drawn in `area`.
    fn hovered_index_for_area(&self, area: Rect) -> (r: Option<usize>)
        requires
            area.wf(),
        ensures
            r == match self.mouse_position {
                Some((col, row)) => match item_at_spec(area, col, row, self.list_state.scroll as usize) {
                    Some(i) => Some(i as usize),
                    None => None,
                },
                None => None,
            },
    {
        hovered_index_for_area(self.mouse_position, area, self.list_state.scroll as usize)
    }

    // ── Filter state ────────────────────────────────────────────────

    /// Whether a filter is applied (text is non-empty).
    pub fn has_active_filter(&self) -> (r: bool)
        ensures
            r == (self.filter_text@.len() > 0),
    {
        self.filter_text.unicode_len() > 0
    }

    /// The current filter text.
    pub fn filter_text(&self) -> (r: &String)
        ensures
            r == &self.filter_text,
    {
        &self.filter_text
    }

    /// Cache filterable items; their keys become the list's item keys.
    pub fn set_filterable_items(&mut self, items: Vec<FilterableItem>)
        ensures
            views(final(self).item_keys@) == items@.map_values(|i: FilterableItem| i.key@),
            final(self).filterable_items == items,
            *final(self) == (ListPanelBase {
                item_keys: final(self).item_keys,
                filterable_items: items,
                ..*old(self)
            }),
    {
        let mut keys: Vec<String> = Vec::new();
        let mut i: usize = 0;
        while i < items.len()
            invariant
                i <= items@.len(),
                views(keys@) == items@.subrange(0, i as int).map_values(|it: FilterableItem| it.key@),
            decreases items@.len() - i,
        {
            let ghost before = keys@;
            keys.push(string_of(items[i].key.as_str()));
            assert(views(keys@) =~= views(before).push(items@[i as int].key@));
            assert(items@.subrange(0, i + 1).map_values(|it: FilterableItem| it.key@)
                =~= items@.subrange(0, i as int).map_values(|it: FilterableItem| it.key@).push(
                items@[i as int].key@,
            ));
            i = i + 1;
        }
        assert(items@.subrange(0, items@.len() as int) =~= items@);
        self.item_keys = keys;
        self.filterable_items = items;
    }

    /// Apply a filter: score the cached items (none for an empty filter).
    pub fn apply_filter_from_items(&mut self, text: &str)
        ensures
            final(self).filter_text@ == text@,
            text@.len() == 0 ==> final(self).match_scores.entries@.len() == 0,
            text@.len() > 0 ==> forall|k: Seq<char>|
                #![trigger score_get(final(self).match_scores.entries@, k)]
                score_get(final(self).match_scores.entries@, k) == match last_key_index(
                    old(self).filterable_items@,
                    old(self).filterable_items@.len() as int,
                    k,
                ) {
                    Some(m) => Some(item_scores(old(self).filterable_items@[m], text@)),
                    None => None,
                },
            *final(self) == (ListPanelBase {
                filter_text: final(self).filter_text,
                match_scores: final(self).match_scores,
                ..*old(self)
            }),
    {
        self.filter_text = string_of(text);
        if text.unicode_len() == 0 {
            self.match_scores.clear();
        } else {
            self.match_scores = compute_match_scores(&self.filterable_items, text);
        }
    }

    /// Clear all filter state (text, scores). Keeps the cached items.
    pub fn clear_filter_state(&mut self)
        ensures
            final(self).filter_text@.len() == 0,
            final(self).match_scores.entries@.len() == 0,
            *final(self) == (ListPanelBase {
                filter_text: final(self).filter_text,
                match_scores: final(self).match_scores,
                filter_active: false,
                ..*old(self)
            }),
    {
        self.filter_text = String::new();
        self.match_scores.clear();
        self.filter_active = false;
    }

    // ── Inline editing ──────────────────────────────────────────────

    /// Anchor an open choice box under its item's value in a panel drawn in
    /// `area` (see `choice_anchor`); nothing changes when no box is open.
    pub fn anchor_choice_select(&mut self, area: Rect)
        requires
            old(self).wf(),
        ensures
            final(self).wf(),
            match (old(self).choice_select.state, old(self).choice_select_index) {
                (Some(s), Some(i)) => *final(self) == (ListPanelBase {
                    choice_select: ChoiceSelectComponent {
                        state: Some(
                            crate::choice_select::ChoiceSelectInner {
                                anchor: choice_anchor(area, i, old(self).list_state.scroll, old(self).value_column),
                                ..s
                            },
                        ),
                        ..old(self).choice_select
                    },
                    ..*old(self)
                }),
                _ => *final(self) == *old(self),
            },
    {
        if self.choice_select.is_open() {
            if let Some(cs_idx) = self.choice_select_index {
                let scroll = self.list_state.scroll as usize;
                let row = if cs_idx >= scroll {
                    cs_idx - scroll
                } else {
                    0
                };
                let row16: u16 = if row > 65535 {
                    65535
                } else {
                    row as u16
                };
                let anchor_y = area.y.saturating_add(1).saturating_add(row16);
                let anchor_x = area.x.saturating_add(self.value_column.saturating_sub(1));
                let width = area.width.saturating_sub(self.value_column.saturating_sub(1));
                let anchor = Rect::new(anchor_x, anchor_y, width, 1);
                self.choice_select.set_anchor(anchor);
            }
        }
    }

    /// Whether a value is being edited inline.
    pub fn is_editing(&self) -> (r: bool)
        ensures
            r == self.editing,
    {
        self.editing
    }

    /// Start editing with `text`, the cursor at its end.
    pub fn start_editing(&mut self, text: &str)
        ensures
            final(self).editing,
            final(self).edit_input.chars@ == text@,
            final(self).edit_input.cursor == text@.len(),
            final(self).edit_input.wf(),
            *final(self) == (ListPanelBase {
                editing: true,
                edit_input: final(self).edit_input,
                ..*old(self)
            }),
    {
        self.editing = true;
        self.edit_input.set_text(text);
    }

    /// Finish editing; the edited text.
    pub fn finish_editing(&mut self) -> (r: String)
        ensures
            r@ == old(self).edit_input.chars@,
            *final(self) == (ListPanelBase { editing: false, ..*old(self) }),
    {
        self.editing = false;
        self.edit_input.text()
    }

    /// The text being edited (empty when not editing).
    pub fn editing_text(&self) -> (r: String)
        ensures
            self.editing ==> r@ == self.edit_input.chars@,
            !self.editing ==> r@.len() == 0,
    {
        if self.editing {
            self.edit_input.text()
        } else {
            String::new()
        }
    }

    /// Handle a key during inline editing: Enter/Esc finish, Backspace/Delete
    /// and typing change the value, arrows and Home/End move the cursor.
    pub fn handle_editing_key(&mut self, key: KeyPress) -> (r: EditEvent)
        requires
            old(self).wf(),
        ensures
            final(self).wf(),
            edit_key_effect(*old(self), key.code, *final(self), r),
    {
        let idx = self.list_state.selected_index;
        match key.code {
            KeyCode::Esc | KeyCode::Enter => {
                let value = self.finish_editing();
                EditEvent::EditFinished { index: idx, value }
            },
            KeyCode::Backspace => {
                self.edit_input.delete_char_backward();
                let value = self.edit_input.text();
                EditEvent::ValueChanged { index: idx, value }
            },
            KeyCode::Delete => {
                self.edit_input.delete_char_forward();
                let value = self.edit_input.text();
                EditEvent::ValueChanged { index: idx, value }
            },
            KeyCode::Left => {
                self.edit_input.move_left();
                EditEvent::Consumed
            },
            KeyCode::Right => {
                self.edit_input.move_right();
                EditEvent::Consumed
            },
            KeyCode::Home => {
                self.edit_input.move_home();
                EditEvent::Consumed
            },
            KeyCode::End => {
                self.edit_input.move_end();
                EditEvent::Consumed
            },
            KeyCode::Char(c) => {
                self.edit_input.insert_char(c);
                let value = self.edit_input.text();
                EditEvent::ValueChanged { index: idx, value }
            },
            _ => EditEvent::Consumed,
        }
    }

    // ── Choice select ───────────────────────────────────────────────

    /// Whether the choice box is open.
    pub fn is_choosing(&self) -> (r: bool)
        ensures
            r == self.choice_select.state is Some,
    {
        self.choice_select.is_open()
    }

    /// The item whose choice box is open.
    pub fn choice_select_index(&self) -> (r: Option<usize>)
        ensures
            r == self.choice_select_index,
    {
        self.choice_select_index
    }

    /// The text typed into the choice box.
    pub fn choice_select_text(&self) -> (r: String)
        ensures
            r@ == self.choice_select.typed_spec(),
    {
        self.choice_select.typed_text()
    }

    /// The highlighted row of the choice box.
    pub fn selected_choice_index(&self) -> (r: Option<usize>)
        ensures
            r == self.choice_select.selected_spec(),
    {
        self.choice_select.selected_index()
    }

    /// Set the mouse position over the choice box.
    pub fn set_choice_select_mouse_position(&mut self, pos: Option<(u16, u16)>)
        ensures
            final(self).choice_select.mouse_position == pos,
            *final(self) == (ListPanelBase {
                choice_select: ChoiceSelectComponent { mouse_position: pos, ..old(self).choice_select },
                ..*old(self)
            }),
    {
        self.choice_select.set_mouse_position(pos);
    }

    /// Open the choice box under item `index` with fixed choices.
    pub fn open_choice_select(
        &mut self,
        index: usize,
        choices: Vec<String>,
        current_value: &str,
        value_column: u16,
    )
        requires
            old(self).wf(),
        ensures
            final(self).wf(),
            final(self).choice_select_index == Some(index),
            final(self).value_column == value_column,
            final(self).choice_select.mouse_position == old(self).choice_select.mouse_position,
            final(self).choice_select.state matches Some(s) && s.choices@ == choices@
                && s.descriptions@.len() == 0 && s.selected_index
                == crate::choice_select::first_choice_index(choices@, current_value@)
                && !s.filter_active && s.edit_input.chars@ == current_value@ && s.anchor
                == Rect::zero_spec(),
            final(self).editing == old(self).editing,
            final(self).edit_input == old(self).edit_input,
            final(self).list_state == old(self).list_state,
            final(self).focused == old(self).focused,
            final(self).filter_text == old(self).filter_text,
            final(self).match_scores == old(self).match_scores,
            final(self).item_keys == old(self).item_keys,
    {
        self.choice_select_index = Some(index);
        self.value_column = value_column;
        self.choice_select.open(choices, current_value, Rect::zero());
    }

    /// Open the completion box under item `index`, editing the current value.
    pub fn open_completion_select(
        &mut self,
        index: usize,
        choices: Vec<String>,
        descriptions: Vec<Option<String>>,
        current_value: &str,
        value_column: u16,
    )
        requires
            old(self).wf(),
        ensures
            final(self).wf(),
            final(self).choice_select_index == Some(index),
            final(self).value_column == value_column,
            final(self).editing,
            final(self).edit_input.chars@ == current_value@,
            final(self).choice_select.mouse_position == old(self).choice_select.mouse_position,
            final(self).choice_select.state matches Some(s) && s.choices@ == choices@
                && s.descriptions@ == descriptions@ && s.selected_index
                == crate::choice_select::first_choice_index(choices@, current_value@)
                && !s.filter_active && s.edit_input.chars@ == current_value@ && s.anchor
                == Rect::zero_spec(),
            final(self).list_state == old(self).list_state,
            final(self).focused == old(self).focused,
            final(self).filter_text == old(self).filter_text,
            final(self).match_scores == old(self).match_scores,
            final(self).item_keys == old(self).item_keys,
    {
        self.choice_select_index = Some(index);
        self.value_column = value_column;
        self.start_editing(current_value);
        self.choice_select.open_with_descriptions(choices, descriptions, current_value, Rect::zero());
    }

    /// Close the choice box.
    pub fn close_choice_select(&mut self)
        requires
            old(self).wf(),
        ensures
            final(self).wf(),
            *final(self) == (ListPanelBase {
                choice_select: ChoiceSelectComponent { state: None, ..old(self).choice_select },
                choice_select_index: None,
                ..*old(self)
            }),
    {
        self.choice_select.close();
        self.choice_select_index = None;
    }

    /// Handle a key while the choice box is open (`None` when it is not):
    /// a confirmed or cancelled value is reported for the item it belongs to.
    pub fn handle_choice_key(&mut self, key: KeyPress) -> (r: Option<ChoiceEvent>)
        requires
            old(self).wf(),
        ensures
            final(self).wf(),
            old(self).choice_select.state is None ==> r is None && *final(self) == *old(self),
            old(self).choice_select.state matches Some(s) ==> choice_key_outcome(
                *old(self),
                s,
                key.code,
                *final(self),
                r,
            ),
    {
        if !self.choice_select.is_open() {
            return None;
        }
        let item_idx = match self.choice_select_index {
            Some(i) => i,
            None => 0,
        };
        match self.choice_select.handle_key(key) {
            EventResult::Action(ChoiceSelectAction::Selected(value)) => {
                self.choice_select_index = None;
                self.editing = false;
                Some(ChoiceEvent::Selected { index: item_idx, value })
            },
            EventResult::Action(ChoiceSelectAction::Cancelled(value)) => {
                self.choice_select_index = None;
                self.editing = false;
                Some(ChoiceEvent::Cancelled { index: item_idx, value })
            },
            _ => Some(ChoiceEvent::Consumed),
        }
    }

    /// Click the visible choice at `index` (`None` when no box is open for an item).
    pub fn click_choice_select(&mut self, index: usize) -> (r: Option<ChoiceEvent>)
        requires
            old(self).wf(),
        ensures
            final(self).wf(),
            old(self).choice_select_index is None ==> r is None && *final(self) == *old(self),
            old(self).choice_select_index matches Some(item) ==> match old(self).choice_select.state {
                Some(s) => if index < s.filtered().len() {
                    (r matches Some(ChoiceEvent::Selected { index: i, value }) && i == item && value@
                        == s.filtered()[index as int].1) && final(self).choice_select.state is None
                        && final(self).choice_select_index is None && !final(self).editing
                } else {
                    r matches Some(ChoiceEvent::Consumed) && *final(self) == *old(self)
                },
                None => r matches Some(ChoiceEvent::Consumed) && *final(self) == *old(self),
            },
    {
        let item_idx = match self.choice_select_index {
            Some(i) => i,
            None => return None,
        };
        match self.choice_select.click_select(index) {
            Some(action) => {
                self.choice_select_index = None;
                self.editing = false;
                match action {
                    ChoiceSelectAction::Selected(value) => Some(ChoiceEvent::Selected { index: item_idx, value }),
                    ChoiceSelectAction::Cancelled(value) => Some(ChoiceEvent::Cancelled { index: item_idx, value }),
                }
            },
            None => Some(ChoiceEvent::Consumed),
        }
    }

    /// The visible choices of the open box.
    pub fn filtered_choices(&self) -> (r: Vec<(usize, String)>)
        ensures
            self.choice_select.state matches Some(s) ==> crate::choice_select::lists_filtered(
                r@,
                s.filtered(),
            ),
            self.choice_select.state is None ==> r@.len() == 0,
    {
        self.choice_select.filtered_choices()
    }

    /// The scroll offset of the choice box for `visible_items` rows.
    pub fn choice_select_scroll_offset(&self, visible_items: usize) -> (r: usize)
        ensures
            r == scroll_offset_spec(self.choice_select.selected_spec(), visible_items),
    {
        self.choice_select.compute_scroll_offset(visible_items)
    }

    /// Move the highlight of the open choice box up.
    pub fn scroll_choice_select_up(&mut self)
        requires
            old(self).wf(),
        ensures
            final(self).wf(),
            old(self).choice_select.state is None ==> *final(self) == *old(self),
            old(self).choice_select.state matches Some(s) ==> (exists|r: EventResult<ChoiceSelectAction>|
                choice_key_effect(s, KeyCode::Up, final(self).choice_select.state, r)),
            final(self).choice_select.mouse_position == old(self).choice_select.mouse_position,
            *final(self) == (ListPanelBase { choice_select: final(self).choice_select, ..*old(self) }),
    {
        let _ = self.choice_select.handle_key(KeyPress::new(KeyCode::Up));
    }

    /// Move the highlight of the open choice box down.
    pub fn scroll_choice_select_down(&mut self)
        requires
            old(self).wf(),
        ensures
            final(self).wf(),
            old(self).choice_select.state is None ==> *final(self) == *old(self),
            old(self).choice_select.state matches Some(s) ==> (exists|r: EventResult<ChoiceSelectAction>|
                choice_key_effect(s, KeyCode::Down, final(self).choice_select.state, r)),
            final(self).choice_select.mouse_position == old(self).choice_select.mouse_position,
            *final(self) == (ListPanelBase { choice_select: final(self).choice_select, ..*old(self) }),
    {
        let _ = self.choice_select.handle_key(KeyPress::new(KeyCode::Down));
    }

    /// What the open choice box renders with.
    pub fn collect_overlays(&self) -> (r: Option<ChoiceOverlayPlan>)
        ensures
            self.choice_select.state is None ==> r is None,
            self.choice_select.state is Some ==> r is Some,
    {
        self.choice_select.overlay_plan()
    }

    /// A click while the choice box is open: inside the box (above its bottom
    /// border) it picks the row under the mouse, counting the box's scroll;
    /// anywhere else it closes the box.
    pub fn handle_choice_click(&mut self, col: u16, row: u16, overlay_rect: Option<Rect>) -> (r: MouseResult)
        requires
            old(self).wf(),
            overlay_rect matches Some(rect) ==> rect.wf(),
        ensures
            final(self).wf(),
            choice_click_effect(*old(self), col, row, overlay_rect, *final(self), r),
    {
        if let Some(rect) = overlay_rect {
            if col >= rect.x && col < rect.x + rect.width && row >= rect.y && row < rect.y
                + rect.height.saturating_sub(1) {
                let visible_items = rect.height.saturating_sub(1) as usize;
                let scroll = self.choice_select.compute_scroll_offset(visible_items);
                let off = (row - rect.y) as usize;
                if scroll <= usize::MAX - off {
                    let clicked_index = off + scroll;
                    return match self.click_choice_select(clicked_index) {
                        Some(event) => MouseResult::ChoiceClicked(event),
                        None => MouseResult::Consumed,
                    };
                }
                return MouseResult::Consumed;
            }
        }
        self.close_choice_select();
        MouseResult::Consumed
    }

    // ── Mouse handling ──────────────────────────────────────────────

    /// A left click on an item selects it (activating it when it was already
    /// the focused selection); the wheel moves the selection, or the choice
    /// box's highlight while one is open.
    pub fn handle_mouse(&mut self, event: MouseInput, area: Rect) -> (r: MouseResult)
        requires
            old(self).wf(),
            area.wf(),
        ensures
            final(self).wf(),
            list_mouse_effect(*old(self), event, area, *final(self), r),
    {
        let total_items = self.list_state.total_items;
        match event.kind {
            MouseKind::LeftDown => {
                if self.is_choosing() {
                    return MouseResult::Consumed;
                }
                match item_at(area, event.column, event.row, self.list_state.scroll as usize) {
                    Some(item_index) => {
                        if item_index < total_items {
                            let was_selected = self.focused && self.list_state.selected_index
                                == item_index;
                            self.list_state.select(item_index);
                            if was_selected {
                                return MouseResult::ClickActivate(item_index);
                            }
                            return MouseResult::ItemSelected(item_index);
                        }
                        MouseResult::NotHandled
                    },
                    None => MouseResult::NotHandled,
                }
            },
            MouseKind::ScrollUp => {
                if self.is_choosing() {
                    self.scroll_choice_select_up();
                } else {
                    self.move_up();
                }
                MouseResult::Consumed
            },
            MouseKind::ScrollDown => {
                if self.is_choosing() {
                    self.scroll_choice_select_down();
                } else {
                    self.move_down();
                }
                MouseResult::Consumed
            },
            _ => MouseResult::NotHandled,
        }
    }
}

/// What a key does while editing inline.
pub open spec fn edit_key_effect(b: ListPanelBase, code: KeyCode, n: ListPanelBase, r: EditEvent) -> bool {
    let idx = b.list_state.selected_index;
    let same_but_input = n == (ListPanelBase { edit_input: n.edit_input, ..b });
    match code {
        KeyCode::Esc | KeyCode::Enter => n == (ListPanelBase { editing: false, ..b }) && (r matches EditEvent::EditFinished { index, value }
            && index == idx && value@ == b.edit_input.chars@),
        KeyCode::Backspace => same_but_input && (r matches EditEvent::ValueChanged { index, value }
            && index == idx && value@ == n.edit_input.chars@) && (if b.edit_input.cursor > 0 {
            n.edit_input.chars@ == b.edit_input.chars@.remove(b.edit_input.cursor - 1)
                && n.edit_input.cursor == b.edit_input.cursor - 1
        } else {
            n.edit_input.chars@ == b.edit_input.chars@ && n.edit_input.cursor == b.edit_input.cursor
        }),
        KeyCode::Delete => same_but_input && (r matches EditEvent::ValueChanged { index, value }
            && index == idx && value@ == n.edit_input.chars@) && n.edit_input.cursor
            == b.edit_input.cursor && (if b.edit_input.cursor < b.edit_input.chars@.len() {
            n.edit_input.chars@ == b.edit_input.chars@.remove(b.edit_input.cursor as int)
        } else {
            n.edit_input.chars@ == b.edit_input.chars@
        }),
        KeyCode::Left | KeyCode::Right | KeyCode::Home | KeyCode::End => same_but_input
            && r is Consumed && n.edit_input.chars@ == b.edit_input.chars@ && n.edit_input.cursor
            == (match code {
            KeyCode::Left => if b.edit_input.cursor > 0 {
                (b.edit_input.cursor - 1) as usize
            } else {
                0
            },
            KeyCode::Right => if b.edit_input.cursor < b.edit_input.chars@.len() {
                (b.edit_input.cursor + 1) as usize
            } else {
                b.edit_input.cursor
            },
            KeyCode::Home => 0,
            _ => b.edit_input.chars@.len() as usize,
        }),
        KeyCode::Char(c) => same_but_input && (r matches EditEvent::ValueChanged { index, value }
            && index == idx && value@ == n.edit_input.chars@) && n.edit_input.chars@
            == b.edit_input.chars@.insert(b.edit_input.cursor as int, c) && n.edit_input.cursor
            == b.edit_input.cursor + 1,
        _ => r is Consumed && n == b,
    }
}

/// What a key does to a list panel whose choice box `s` is open.
pub open spec fn choice_key_outcome(
    b: ListPanelBase,
    s: crate::choice_select::ChoiceSelectInner,
    code: KeyCode,
    n: ListPanelBase,
    r: Option<ChoiceEvent>,
) -> bool {
    let item = match b.choice_select_index {
        Some(i) => i,
        None => 0,
    };
    &&& n.choice_select.mouse_position == b.choice_select.mouse_position
    &&& n.list_state == b.list_state
    &&& n.focused == b.focused
    &&& n.filter_text == b.filter_text
    &&& n.match_scores == b.match_scores
    &&& n.item_keys == b.item_keys
    &&& n.edit_input == b.edit_input
    &&& match code {
        KeyCode::Enter => n.choice_select.state is None && n.choice_select_index is None
            && !n.editing && (r matches Some(ChoiceEvent::Selected { index, value }) && index
            == item && value@ == s.resolved()),
        KeyCode::Esc => n.choice_select.state is None && n.choice_select_index is None
            && !n.editing && (r matches Some(ChoiceEvent::Cancelled { index, value }) && index
            == item && value@ == s.edit_input.chars@),
        _ => r matches Some(ChoiceEvent::Consumed) && n.choice_select_index == b.choice_select_index
            && n.editing == b.editing && (exists|er: EventResult<ChoiceSelectAction>|
            choice_key_effect(s, code, n.choice_select.state, er)),
    }
}

/// What a mouse event does to a list panel.
pub open spec fn list_mouse_effect(
    b: ListPanelBase,
    event: MouseInput,
    area: Rect,
    n: ListPanelBase,
    r: MouseResult,
) -> bool {
    match event.kind {
        MouseKind::LeftDown => if b.choice_select.state is Some {
            r is Consumed && n == b
        } else {
            match item_at_spec(area, event.column, event.row, b.list_state.scroll as usize) {
                Some(i) => if i < b.list_state.total_items {
                    b.selects(n, i as usize) && if b.focused && b.list_state.selected_index == i {
                        r == MouseResult::ClickActivate(i as usize)
                    } else {
                        r == MouseResult::ItemSelected(i as usize)
                    }
                } else {
                    r is NotHandled && n == b
                },
                None => r is NotHandled && n == b,
            }
        },
        MouseKind::ScrollUp => r is Consumed && match b.choice_select.state {
            Some(s) => n == (ListPanelBase { choice_select: n.choice_select, ..b })
                && n.choice_select.mouse_position == b.choice_select.mouse_position && exists|
                er: EventResult<ChoiceSelectAction>,
            | choice_key_effect(s, KeyCode::Up, n.choice_select.state, er),
            None => b.selects(n, b.up_selection()),
        },
        MouseKind::ScrollDown => r is Consumed && match b.choice_select.state {
            Some(s) => n == (ListPanelBase { choice_select: n.choice_select, ..b })
                && n.choice_select.mouse_position == b.choice_select.mouse_position && exists|
                er: EventResult<ChoiceSelectAction>,
            | choice_key_effect(s, KeyCode::Down, n.choice_select.state, er),
            None => b.selects(n, b.down_selection()),
        },
        MouseKind::Other => r is NotHandled && n == b,
    }
}

} // verus!
