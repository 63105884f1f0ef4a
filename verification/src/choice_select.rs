//! The choice select box: a filtered list of choices with a text input,
//! opened under a flag or argument that has choices or completions.

use vstd::prelude::*;

use crate::events::{EventResult, KeyCode, KeyPress};
use crate::geometry::Rect;
use crate::list_state::TextInput;
use crate::matching::{fuzzy_match_score, score_of};
use crate::text::{string_of, views};
use crate::values::opt_chars;

verus! {

/// Compute the scroll offset for a list with the given selected index and
/// visible item count: the selection ends on the last visible row when it
/// would fall below the viewport.
pub open spec fn scroll_offset_spec(selected: Option<usize>, visible_items: usize) -> usize {
    match selected {
        Some(sel) => if visible_items > 0 && sel >= visible_items {
            (sel - (visible_items - 1)) as usize
        } else {
            0
        },
        None => 0,
    }
}

/// Compute the scroll offset for a list with the given selected index and
/// visible item count.
pub fn compute_scroll_offset(selected: Option<usize>, visible_items: usize) -> (r: usize)
    ensures
        r == scroll_offset_spec(selected, visible_items),
        selected is Some && visible_items > 0 ==> r <= selected->0 && selected->0 < r
            + visible_items,
{
    if let Some(sel) = selected {
        if visible_items > 0 && sel >= visible_items {
            sel - (visible_items - 1)
        } else {
            0
        }
    } else {
        0
    }
}

/// Actions emitted by the choice select component.
#[derive(Debug, Clone, PartialEq, Eq)]
pub enum ChoiceSelectAction {
    /// User confirmed a selection. Contains the chosen text.
    Selected(String),
    /// User cancelled (Esc). Contains the typed text to keep.
    Cancelled(String),
}

/// The state of an open choice box.
#[derive(Debug, Clone)]
pub struct ChoiceSelectInner {
    pub choices: Vec<String>,
    pub descriptions: Vec<Option<String>>,
    /// Position in the filtered list (None = the typed text is the value).
    pub selected_index: Option<usize>,
    /// Whether typing has started filtering the choices.
    pub filter_active: bool,
    pub edit_input: TextInput,
    /// Anchor point for overlay positioning (set by the parent panel).
    pub anchor: Rect,
}

/// Whether choice `i` has a description that the typed text fuzzily matches.
pub open spec fn description_matches(descriptions: Seq<Option<String>>, i: int, filter: Seq<char>) -> bool {
    &&& 0 <= i < descriptions.len()
    &&& descriptions[i] matches Some(d) && score_of(d@, filter) > 0
}

/// The choices that stay visible, as (original position, text): all of them
/// until the user types, then those whose text or description the typed
/// text fuzzily matches.
pub open spec fn filtered_spec(
    choices: Seq<String>,
    descriptions: Seq<Option<String>>,
    filter: Seq<char>,
    active: bool,
) -> Seq<(int, Seq<char>)>
    decreases choices.len(),
{
    if choices.len() == 0 {
        Seq::empty()
    } else {
        let rest = filtered_spec(choices.drop_last(), descriptions, filter, active);
        let i = choices.len() - 1;
        if filter.len() == 0 || !active || score_of(choices.last()@, filter) > 0
            || description_matches(descriptions, i, filter) {
            rest.push((i, choices.last()@))
        } else {
            rest
        }
    }
}

/// Whether `r` lists exactly `f`.
pub open spec fn lists_filtered(r: Seq<(usize, String)>, f: Seq<(int, Seq<char>)>) -> bool {
    &&& r.len() == f.len()
    &&& forall|k: int| 0 <= k < f.len() ==> (#[trigger] r[k]).0 as int == f[k].0 && r[k].1@ == f[k].1
}

impl ChoiceSelectInner {
    /// The visible choices.
    pub open spec fn filtered(self) -> Seq<(int, Seq<char>)> {
        filtered_spec(self.choices@, self.descriptions@, self.edit_input.chars@, self.filter_active)
    }

    /// The value Enter confirms: the highlighted visible choice, else the typed text.
    pub open spec fn resolved(self) -> Seq<char> {
        match self.selected_index {
            Some(i) => if i < self.filtered().len() {
                self.filtered()[i as int].1
            } else {
                self.edit_input.chars@
            },
            None => self.edit_input.chars@,
        }
    }

    /// Get filtered choices as (original_index, label) pairs.
    pub fn filtered_choices(&self) -> (r: Vec<(usize, String)>)
        ensures
            lists_filtered(r@, self.filtered()),
    {
        let filter = self.edit_input.text();
        let empty = filter.unicode_len() == 0;
        let mut out: Vec<(usize, String)> = Vec::new();
        let mut i: usize = 0;
        while i < self.choices.len()
            invariant
                i <= self.choices@.len(),
                filter@ == self.edit_input.chars@,
                empty == (filter@.len() == 0),
                lists_filtered(
                    out@,
                    filtered_spec(
                        self.choices@.subrange(0, i as int),
                        self.descriptions@,
                        self.edit_input.chars@,
                        self.filter_active,
                    ),
                ),
            decreases self.choices.len() - i,
        {
            let ghost sub = self.choices@.subrange(0, i + 1);
            assert(sub.drop_last() =~= self.choices@.subrange(0, i as int));
            assert(sub.last() == self.choices@[i as int]);
            let mut keep = empty || !self.filter_active || fuzzy_match_score(
                self.choices[i].as_str(),
                filter.as_str(),
            ) > 0;
            if !keep && i < self.descriptions.len() {
                if let Some(d) = &self.descriptions[i] {
                    keep = fuzzy_match_score(d.as_str(), filter.as_str()) > 0;
                }
            }
            if keep {
                out.push((i, string_of(self.choices[i].as_str())));
            }
            i = i + 1;
        }
        assert(self.choices@.subrange(0, self.choices@.len() as int) =~= self.choices@);
        out
    }

    /// Resolve the value to emit: selected choice text or typed input.
    pub fn resolve_value(&self) -> (r: String)
        ensures
            r@ == self.resolved(),
    {
        let filtered = self.filtered_choices();
        if let Some(idx) = self.selected_index {
            if idx < filtered.len() {
                return string_of(filtered[idx].1.as_str());
            }
        }
        self.edit_input.text()
    }
}

/// Self-contained choice/completion select overlay.
/// Owns its own open/close state, selection index, scroll, and filter.
#[derive(Debug, Clone)]
pub struct ChoiceSelectComponent {
    pub state: Option<ChoiceSelectInner>,
    /// Mouse position from parent, used for hover highlighting.
    pub mouse_position: Option<(u16, u16)>,
}

/// Where a value first occurs among the choices.
pub open spec fn first_choice_index(choices: Seq<String>, v: Seq<char>) -> Option<usize> {
    if exists|i: int| 0 <= i < choices.len() && #[trigger] choices[i]@ == v {
        Some(
            (choose|i: int|
                0 <= i < choices.len() && choices[i]@ == v && forall|j: int|
                    0 <= j < i ==> #[trigger] choices[j]@ != v) as usize,
        )
    } else {
        None
    }
}

/// What a rendered choice box needs: the visible labels and descriptions,
/// the highlighted row, the anchor and the preferred size.
#[derive(Debug, Clone)]
pub struct ChoiceOverlayPlan {
    pub anchor: Rect,
    pub width: u16,
    pub height: u16,
    pub labels: Vec<String>,
    pub descriptions: Vec<Option<String>>,
    pub selected_index: Option<usize>,
    pub mouse_position: Option<(u16, u16)>,
}

impl ChoiceSelectComponent {
    /// Whether the text input of an open box keeps its cursor within its text.
    pub open spec fn wf(self) -> bool {
        self.state matches Some(s) ==> s.edit_input.wf()
    }

    /// A closed choice box.
    pub fn new() -> (r: ChoiceSelectComponent)
        ensures
            r.state is None,
            r.mouse_position is None,
            r.wf(),
    {
        ChoiceSelectComponent { state: None, mouse_position: None }
    }

    /// Open with the given choices, pre-selecting the current value.
    pub fn open(&mut self, choices: Vec<String>, current_value: &str, anchor: Rect)
        ensures
            final(self).wf(),
            final(self).mouse_position == old(self).mouse_position,
            final(self).state matches Some(s) && s.choices@ == choices@ && s.descriptions@.len()
                == 0 && s.selected_index == first_choice_index(choices@, current_value@)
                && !s.filter_active && s.edit_input.chars@ == current_value@
                && s.edit_input.cursor == current_value@.len() && s.anchor == anchor,
    {
        let mut selected_index: Option<usize> = None;
        let mut i: usize = 0;
        while i < choices.len() && selected_index.is_none()
            invariant
                i <= choices@.len(),
                selected_index is None ==> forall|j: int|
                    0 <= j < i ==> #[trigger] choices@[j]@ != current_value@,
                selected_index is Some ==> selected_index == first_choice_index(
                    choices@,
                    current_value@,
                ),
            decreases choices.len() - i + (if selected_index is None {
                1int
            } else {
                0int
            }),
        {
            if crate::text::str_eq(choices[i].as_str(), current_value) {
                proof {
                    assert(choices@[i as int]@ == current_value@);
                    let c = choose|k: int|
                        0 <= k < choices@.len() && choices@[k]@ == current_value@ && forall|j: int|
                            0 <= j < k ==> #[trigger] choices@[j]@ != current_value@;
                    assert(0 <= c < choices@.len() && choices@[c]@ == current_value@ && forall|
                        j: int,
                    | 0 <= j < c ==> #[trigger] choices@[j]@ != current_value@);
                    if c < i {
                        assert(choices@[c]@ != current_value@);
                    }
                    if c > i {
                        assert(choices@[i as int]@ != current_value@);
                    }
                }
                selected_index = Some(i);
            } else {
                i = i + 1;
            }
        }
        proof {
            if selected_index is None {
                assert(i == choices@.len());
                assert(!exists|k: int| 0 <= k < choices@.len() && #[trigger] choices@[k]@ == current_value@);
            }
        }
        let mut edit_input = TextInput::empty();
        edit_input.set_text(current_value);
        self.state = Some(
            ChoiceSelectInner {
                choices,
                descriptions: Vec::new(),
                selected_index,
                filter_active: false,
                edit_input,
                anchor,
            },
        );
    }

    /// Open with choices and descriptions (for completions).
    pub fn open_with_descriptions(
        &mut self,
        choices: Vec<String>,
        descriptions: Vec<Option<String>>,
        current_value: &str,
        anchor: Rect,
    )
        ensures
            final(self).wf(),
            final(self).mouse_position == old(self).mouse_position,
            final(self).state matches Some(s) && s.choices@ == choices@ && s.descriptions@
                == descriptions@ && s.selected_index == first_choice_index(
                choices@,
                current_value@,
            ) && !s.filter_active && s.edit_input.chars@ == current_value@
                && s.edit_input.cursor == current_value@.len() && s.anchor == anchor,
    {
        self.open(choices, current_value, anchor);
        if let Some(ref mut inner) = self.state {
            inner.descriptions = descriptions;
        }
    }

    /// Whether the box is open.
    pub fn is_open(&self) -> (r: bool)
        ensures
            r == self.state is Some,
    {
        self.state.is_some()
    }

    /// Close the box.
    pub fn close(&mut self)
        ensures
            final(self).state is None,
            final(self).mouse_position == old(self).mouse_position,
            final(self).wf(),
    {
        self.state = None;
    }

    /// The text typed so far (empty when closed).
    pub open spec fn typed_spec(self) -> Seq<char> {
        match self.state {
            Some(s) => s.edit_input.chars@,
            None => Seq::empty(),
        }
    }

    /// The current typed text (for syncing to the parent's edit state).
    pub fn typed_text(&self) -> (r: String)
        ensures
            r@ == self.typed_spec(),
    {
        match &self.state {
            Some(s) => s.edit_input.text(),
            None => String::new(),
        }
    }

    /// The text before the cursor (for inline edit rendering).
    pub fn text_before_cursor(&self) -> (r: String)
        requires
            self.wf(),
        ensures
            self.state matches Some(s) ==> r@ == s.edit_input.chars@.subrange(
                0,
                s.edit_input.cursor as int,
            ),
            self.state is None ==> r@.len() == 0,
    {
        match &self.state {
            Some(s) => s.edit_input.text_before_cursor(),
            None => String::new(),
        }
    }

    /// The text after the cursor (for inline edit rendering).
    pub fn text_after_cursor(&self) -> (r: String)
        requires
            self.wf(),
        ensures
            self.state matches Some(s) ==> r@ == s.edit_input.chars@.subrange(
                s.edit_input.cursor as int,
                s.edit_input.chars@.len() as int,
            ),
            self.state is None ==> r@.len() == 0,
    {
        match &self.state {
            Some(s) => s.edit_input.text_after_cursor(),
            None => String::new(),
        }
    }

    /// The highlighted row of an open box.
    pub open spec fn selected_spec(self) -> Option<usize> {
        match self.state {
            Some(s) => s.selected_index,
            None => None,
        }
    }

    /// Compute the scroll offset for a given number of visible items.
    pub fn compute_scroll_offset(&self, visible_items: usize) -> (r: usize)
        ensures
            r == scroll_offset_spec(self.selected_spec(), visible_items),
    {
        let sel = match &self.state {
            Some(s) => s.selected_index,
            None => None,
        };
        compute_scroll_offset(sel, visible_items)
    }

    /// Current selected index in the filtered list (None = text input mode).
    pub fn selected_index(&self) -> (r: Option<usize>)
        ensures
            r == self.selected_spec(),
    {
        match &self.state {
            Some(s) => s.selected_index,
            None => None,
        }
    }

    /// Filtered choices as (original_index, label) pairs (none when closed).
    pub fn filtered_choices(&self) -> (r: Vec<(usize, String)>)
        ensures
            self.state matches Some(s) ==> lists_filtered(r@, s.filtered()),
            self.state is None ==> r@.len() == 0,
    {
        match &self.state {
            Some(s) => s.filtered_choices(),
            None => Vec::new(),
        }
    }

    /// Click-select: highlight the visible choice at `index` and confirm it.
    pub fn click_select(&mut self, index: usize) -> (r: Option<ChoiceSelectAction>)
        requires
            old(self).wf(),
        ensures
            final(self).wf(),
            final(self).mouse_position == old(self).mouse_position,
            old(self).state is None ==> r is None && final(self).state is None,
            old(self).state matches Some(s) ==> if index < s.filtered().len() {
                final(self).state is None && (r matches Some(ChoiceSelectAction::Selected(v))
                    && v@ == s.filtered()[index as int].1)
            } else {
                r is None && final(self).state == old(self).state
            },
    {
        match &self.state {
            None => None,
            Some(inner) => {
                let filtered = inner.filtered_choices();
                if index < filtered.len() {
                    let value = string_of(filtered[index].1.as_str());
                    self.state = None;
                    Some(ChoiceSelectAction::Selected(value))
                } else {
                    None
                }
            },
        }
    }

    /// Update the anchor rect for overlay positioning.
    pub fn set_anchor(&mut self, anchor: Rect)
        requires
            old(self).wf(),
        ensures
            final(self).wf(),
            final(self).mouse_position == old(self).mouse_position,
            old(self).state is None ==> final(self).state is None,
            old(self).state matches Some(s) ==> final(self).state == Some(
                ChoiceSelectInner { anchor, ..s },
            ),
    {
        if let Some(ref mut inner) = self.state {
            inner.anchor = anchor;
        }
    }

    /// Update the mouse position for hover highlighting in the overlay.
    pub fn set_mouse_position(&mut self, pos: Option<(u16, u16)>)
        ensures
            final(self).state == old(self).state,
            final(self).mouse_position == pos,
    {
        self.mouse_position = pos;
    }

    /// Handle a key: Enter confirms, Esc cancels (keeping the typed text),
    /// Up/Down move the highlight, typing edits the text and starts filtering.
    pub fn handle_key(&mut self, key: KeyPress) -> (r: EventResult<ChoiceSelectAction>)
        requires
            old(self).wf(),
        ensures
            final(self).wf(),
            final(self).mouse_position == old(self).mouse_position,
            old(self).state is None ==> r is NotHandled && final(self).state is None,
            old(self).state matches Some(s) ==> choice_key_effect(s, key.code, final(self).state, r),
    {
        let code = key.code;
        let inner = match &mut self.state {
            None => return EventResult::NotHandled,
            Some(inner) => inner,
        };
        match code {
            KeyCode::Enter => {
                let value = inner.resolve_value();
                self.state = None;
                EventResult::Action(ChoiceSelectAction::Selected(value))
            },
            KeyCode::Esc => {
                let typed = inner.edit_input.text();
                self.state = None;
                EventResult::Action(ChoiceSelectAction::Cancelled(typed))
            },
            KeyCode::Up => {
                match inner.selected_index {
                    Some(0) | None => inner.selected_index = None,
                    Some(idx) => inner.selected_index = Some(idx - 1),
                }
                EventResult::Consumed
            },
            KeyCode::Down => {
                let filtered_len = inner.filtered_choices().len();
                if filtered_len > 0 {
                    match inner.selected_index {
                        None => inner.selected_index = Some(0),
                        Some(idx) => {
                            if idx < filtered_len && idx + 1 < filtered_len {
                                inner.selected_index = Some(idx + 1);
                            }
                        },
                    }
                }
                EventResult::Consumed
            },
            KeyCode::Backspace => {
                inner.edit_input.delete_char_backward();
                inner.filter_active = true;
                inner.selected_index = None;
                EventResult::Consumed
            },
            KeyCode::Left => {
                inner.edit_input.move_left();
                EventResult::Consumed
            },
            KeyCode::Right => {
                inner.edit_input.move_right();
                EventResult::Consumed
            },
            KeyCode::Char(c) => {
                inner.edit_input.insert_char(c);
                inner.filter_active = true;
                inner.selected_index = None;
                EventResult::Consumed
            },
            _ => EventResult::NotHandled,
        }
    }

    /// The overlays to draw: the box's plan when it is open, none when closed.
    pub fn collect_overlays(&self) -> (r: Vec<ChoiceOverlayPlan>)
        ensures
            self.state is None ==> r@.len() == 0,
            self.state matches Some(s) ==> r@.len() == 1 && r@[0].anchor == s.anchor && r@[0].height == (if s.filtered().len() == 0 {
                2u16
            } else if s.filtered().len() < 10 {
                (s.filtered().len() + 1) as u16
            } else {
                11u16
            }),
    {
        let mut r: Vec<ChoiceOverlayPlan> = Vec::new();
        if let Some(plan) = self.overlay_plan() {
            r.push(plan);
        }
        r
    }

    /// The data an open box renders with, and its preferred size: as wide as
    /// the longest label plus the longest description, as tall as the visible
    /// choices (at most 10) plus the bottom border.
    pub fn overlay_plan(&self) -> (r: Option<ChoiceOverlayPlan>)
        ensures
            self.state is None ==> r is None,
            self.state matches Some(s) ==> r matches Some(p) && p.anchor == s.anchor
                && p.selected_index == s.selected_index && p.mouse_position == self.mouse_position
                && p.labels@.len() == s.filtered().len() && p.descriptions@.len()
                == s.filtered().len() && (forall|k: int|
                0 <= k < s.filtered().len() ==> #[trigger] p.labels@[k]@ == s.filtered()[k].1)
                && p.height == (if s.filtered().len() == 0 {
                2u16
            } else if s.filtered().len() < 10 {
                (s.filtered().len() + 1) as u16
            } else {
                11u16
            }),
    {
        let inner = match &self.state {
            None => return None,
            Some(inner) => inner,
        };
        let filtered = inner.filtered_choices();
        let mut labels: Vec<String> = Vec::new();
        let mut descriptions: Vec<Option<String>> = Vec::new();
        let mut max_choice_len: usize = 0;
        let mut max_desc_len: usize = 0;
        let mut i: usize = 0;
        while i < filtered.len()
            invariant
                i <= filtered@.len(),
                labels@.len() == i,
                descriptions@.len() == i,
                forall|k: int| 0 <= k < i ==> #[trigger] labels@[k]@ == filtered@[k].1@,
            decreases filtered.len() - i,
        {
            let label = string_of(filtered[i].1.as_str());
            let n = label.unicode_len();
            if n > max_choice_len {
                max_choice_len = n;
            }
            let orig = filtered[i].0;
            let d = if orig < inner.descriptions.len() {
                crate::values::copy_opt_string(&inner.descriptions[orig])
            } else {
                None
            };
            match &d {
                Some(t) => {
                    let m = t.unicode_len();
                    if m < usize::MAX - 2 && m + 2 > max_desc_len {
                        max_desc_len = m + 2;
                    }
                },
                None => {},
            }
            labels.push(label);
            descriptions.push(d);
            i = i + 1;
        }
        if filtered.len() == 0 {
            max_choice_len = 10;
        }
        let width = (#[verifier::truncate] (max_choice_len as u16)).wrapping_add(
            #[verifier::truncate] (max_desc_len as u16),
        ).wrapping_add(4);
        let count = filtered.len();
        let height: u16 = if count == 0 {
            2
        } else if count < 10 {
            (count + 1) as u16
        } else {
            11
        };
        Some(
            ChoiceOverlayPlan {
                anchor: inner.anchor,
                width,
                height,
                labels,
                descriptions,
                selected_index: inner.selected_index,
                mouse_position: self.mouse_position,
            },
        )
    }
}

/// What a key does to an open choice box `s`: the new state and the result.
pub open spec fn choice_key_effect(
    s: ChoiceSelectInner,
    code: KeyCode,
    new_state: Option<ChoiceSelectInner>,
    r: EventResult<ChoiceSelectAction>,
) -> bool {
    match code {
        KeyCode::Enter => new_state is None && (r matches EventResult::Action(
            ChoiceSelectAction::Selected(v),
        ) && v@ == s.resolved()),
        KeyCode::Esc => new_state is None && (r matches EventResult::Action(
            ChoiceSelectAction::Cancelled(v),
        ) && v@ == s.edit_input.chars@),
        KeyCode::Up => r is Consumed && new_state == Some(
            ChoiceSelectInner {
                selected_index: match s.selected_index {
                    Some(i) => if i == 0 {
                        None
                    } else {
                        Some((i - 1) as usize)
                    },
                    None => None,
                },
                ..s
            },
        ),
        KeyCode::Down => r is Consumed && new_state == Some(
            ChoiceSelectInner {
                selected_index: if s.filtered().len() == 0 {
                    s.selected_index
                } else {
                    match s.selected_index {
                        None => Some(0usize),
                        Some(i) => if i + 1 < s.filtered().len() {
                            Some((i + 1) as usize)
                        } else {
                            Some(i)
                        },
                    }
                },
                ..s
            },
        ),
        KeyCode::Backspace => r is Consumed && (new_state matches Some(n) && n.choices
            == s.choices && n.descriptions == s.descriptions && n.anchor == s.anchor
            && n.filter_active && n.selected_index is None && (if s.edit_input.cursor > 0 {
            n.edit_input.chars@ == s.edit_input.chars@.remove(s.edit_input.cursor - 1)
                && n.edit_input.cursor == s.edit_input.cursor - 1
        } else {
            n.edit_input.chars@ == s.edit_input.chars@ && n.edit_input.cursor
                == s.edit_input.cursor
        })),
        KeyCode::Left => r is Consumed && (new_state matches Some(n)
            && n.choices == s.choices && n.descriptions == s.descriptions && n.anchor == s.anchor
            && n.filter_active == s.filter_active && n.selected_index == s.selected_index
            && n.edit_input.chars@ == s.edit_input.chars@ && n.edit_input.cursor == if s.edit_input.cursor
            > 0 {
            (s.edit_input.cursor - 1) as usize
        } else {
            0
        }),
        KeyCode::Right => r is Consumed && (new_state matches Some(n)
            && n.choices == s.choices && n.descriptions == s.descriptions && n.anchor == s.anchor
            && n.filter_active == s.filter_active && n.selected_index == s.selected_index
            && n.edit_input.chars@ == s.edit_input.chars@ && n.edit_input.cursor == if s.edit_input.cursor
            < s.edit_input.chars@.len() {
            (s.edit_input.cursor + 1) as usize
        } else {
            s.edit_input.cursor
        }),
        KeyCode::Char(c) => r is Consumed && (new_state matches Some(n) && n.choices
            == s.choices && n.descriptions == s.descriptions && n.anchor == s.anchor
            && n.filter_active && n.selected_index is None && n.edit_input.chars@
            == s.edit_input.chars@.insert(s.edit_input.cursor as int, c) && n.edit_input.cursor
            == s.edit_input.cursor + 1),
        _ => r is NotHandled && new_state == Some(s),
    }
}

/// The row under the mouse in a choice box drawn in `area` (no top border,
/// one bottom border), counting the scroll that keeps the highlight visible.
pub fn overlay_hovered_index(
    mouse: Option<(u16, u16)>,
    area: Rect,
    selected: Option<usize>,
    label_count: usize,
) -> (r: Option<usize>)
    requires
        area.wf(),
    ensures
        r == match mouse {
            Some((col, row)) => {
                let scroll = scroll_offset_spec(selected, crate::geometry::sat_sub(area.height, 1) as usize);
                if col >= area.x && col < area.x + area.width && row >= area.y && row < area.y
                    + crate::geometry::sat_sub(area.height, 1) && (row - area.y) + scroll < label_count {
                    Some(((row - area.y) + scroll) as usize)
                } else {
                    None
                }
            },
            None => None,
        },
{
    let (col, row) = match mouse {
        Some(p) => p,
        None => return None,
    };
    let inner_top = area.y;
    let inner_bottom = area.y + area.height.saturating_sub(1);
    if col >= area.x && col < area.x + area.width && row >= inner_top && row < inner_bottom {
        let visible_items = area.height.saturating_sub(1) as usize;
        let scroll = compute_scroll_offset(selected, visible_items);
        let off = (row - inner_top) as usize;
        if scroll <= usize::MAX - off {
            let idx = off + scroll;
            if idx < label_count {
                return Some(idx);
            }
        }
        None
    } else {
        None
    }
}

/// Down never moves the highlight past the last visible choice.
pub proof fn lemma_down_stays_in_range(s: ChoiceSelectInner)
    requires
        s.selected_index matches Some(i) ==> i < s.filtered().len(),
    ensures
        ({
            let n = if s.filtered().len() == 0 {
                s.selected_index
            } else {
                match s.selected_index {
                    None => Some(0usize),
                    Some(i) => if i + 1 < s.filtered().len() {
                        Some((i + 1) as usize)
                    } else {
                        Some(i)
                    },
                }
            };
            n matches Some(j) ==> j < s.filtered().len()
        }),
{
}


/// Left and Right in a choice box move the cursor of the typed text one
/// character left or right, stopping at its ends, and leave the text as it
/// is.
pub proof fn lemma_choice_cursor_keys(
    s: ChoiceSelectInner,
    code: KeyCode,
    new_state: Option<ChoiceSelectInner>,
    r: EventResult<ChoiceSelectAction>,
)
    requires
        s.edit_input.wf(),
        code == KeyCode::Left || code == KeyCode::Right,
        choice_key_effect(s, code, new_state, r),
    ensures
        new_state matches Some(n) && n.edit_input.chars@ == s.edit_input.chars@ && n.edit_input.wf() && (
        code == KeyCode::Left ==> n.edit_input.cursor <= s.edit_input.cursor && (s.edit_input.cursor > 0
            ==> n.edit_input.cursor + 1 == s.edit_input.cursor)) && (code == KeyCode::Right
            ==> n.edit_input.cursor >= s.edit_input.cursor && (s.edit_input.cursor < s.edit_input.chars@.len()
            ==> n.edit_input.cursor == s.edit_input.cursor + 1)),
{
    let n = new_state->0;
    assert(s.edit_input.chars@.len() == s.edit_input.chars.len());
    if code == KeyCode::Left {
        assert(n.edit_input.chars@ == s.edit_input.chars@);
    } else {
        assert(n.edit_input.chars@ == s.edit_input.chars@);
    }
}

/// Typing right after Left puts the character in front of the one that was
/// before the cursor: with "ab" typed, Left then "x" gives "axb".
pub proof fn lemma_choice_left_then_type(
    s: ChoiceSelectInner,
    n1: Option<ChoiceSelectInner>,
    r1: EventResult<ChoiceSelectAction>,
    c: char,
    n2: Option<ChoiceSelectInner>,
    r2: EventResult<ChoiceSelectAction>,
)
    requires
        s.edit_input.wf(),
        s.edit_input.cursor > 0,
        choice_key_effect(s, KeyCode::Left, n1, r1),
        n1 matches Some(m) && choice_key_effect(m, KeyCode::Char(c), n2, r2),
    ensures
        n2 matches Some(n) && n.edit_input.chars@ == s.edit_input.chars@.insert(s.edit_input.cursor - 1, c)
            && n.edit_input.cursor == s.edit_input.cursor,
{
}

/// Whether a choice box filtering with `filter` keeps choice `i`: before any
/// typing every choice stays; after it, a choice stays when the typed text
/// fuzzily matches its text or its description.
pub open spec fn choice_kept(
    choices: Seq<String>,
    descriptions: Seq<Option<String>>,
    filter: Seq<char>,
    active: bool,
    i: int,
) -> bool {
    ||| filter.len() == 0
    ||| !active
    ||| score_of(choices[i]@, filter) > 0
    ||| (i < descriptions.len() && descriptions[i] is Some && score_of(descriptions[i]->0@, filter) > 0)
}

/// The visible choices are exactly the kept ones, in their order: each
/// shown entry is a kept choice with its own text, the positions increase,
/// and every kept choice is shown.
pub proof fn lemma_filtered_are_kept(
    choices: Seq<String>,
    descriptions: Seq<Option<String>>,
    filter: Seq<char>,
    active: bool,
)
    ensures
        forall|k: int|
            0 <= k < filtered_spec(choices, descriptions, filter, active).len() ==> {
                let e = #[trigger] filtered_spec(choices, descriptions, filter, active)[k];
                &&& 0 <= e.0 < choices.len()
                &&& e.1 == choices[e.0]@
                &&& choice_kept(choices, descriptions, filter, active, e.0)
            },
        forall|k: int, l: int|
            0 <= k < l < filtered_spec(choices, descriptions, filter, active).len() ==> (
            #[trigger] filtered_spec(choices, descriptions, filter, active)[k]).0 < (
            #[trigger] filtered_spec(choices, descriptions, filter, active)[l]).0,
        forall|i: int|
            0 <= i < choices.len() && #[trigger] choice_kept(choices, descriptions, filter, active, i) ==> exists|
                k: int,
            |
                0 <= k < filtered_spec(choices, descriptions, filter, active).len() && (
                #[trigger] filtered_spec(choices, descriptions, filter, active)[k]).0 == i,
    decreases choices.len(),
{
    if choices.len() > 0 {
        let rest = choices.drop_last();
        lemma_filtered_are_kept(rest, descriptions, filter, active);
        let fr = filtered_spec(rest, descriptions, filter, active);
        let f = filtered_spec(choices, descriptions, filter, active);
        let n = choices.len() - 1;
        assert(choices[n] == choices.last());
        assert forall|j: int| 0 <= j < rest.len() implies choice_kept(rest, descriptions, filter, active, j)
            == choice_kept(choices, descriptions, filter, active, j) by {
            assert(rest[j] == choices[j]);
        }
        assert forall|k: int| 0 <= k < f.len() implies {
            let e = #[trigger] f[k];
            &&& 0 <= e.0 < choices.len()
            &&& e.1 == choices[e.0]@
            &&& choice_kept(choices, descriptions, filter, active, e.0)
        } by {
            if k < fr.len() {
                assert(f[k] == fr[k]);
                assert(rest[fr[k].0] == choices[fr[k].0]);
            }
        }
        assert forall|k: int, l: int| 0 <= k < l < f.len() implies (#[trigger] f[k]).0 < (#[trigger] f[l]).0 by {
            if l < fr.len() {
                assert(f[k] == fr[k] && f[l] == fr[l]);
            } else {
                assert(f[k] == fr[k]);
            }
        }
        assert forall|i: int| 0 <= i < choices.len() && #[trigger] choice_kept(
            choices,
            descriptions,
            filter,
            active,
            i,
        ) implies exists|k: int| 0 <= k < f.len() && (#[trigger] f[k]).0 == i by {
            if i < n {
                assert(choice_kept(rest, descriptions, filter, active, i));
                let k = choose|k: int| 0 <= k < fr.len() && (#[trigger] fr[k]).0 == i;
                assert(f[k] == fr[k]);
            } else {
                assert(f[f.len() - 1].0 == n);
            }
        }
    }
}

} // verus!
