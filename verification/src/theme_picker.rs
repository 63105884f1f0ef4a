//! Color themes, by their position in the theme list, and the theme picker
//! overlay: wrapping keyboard navigation with live preview, Esc restoring
//! the theme it was opened with, and clicks on its rows.

use vstd::prelude::*;

use crate::events::{EventResult, KeyCode, KeyPress};
use crate::geometry::{min16, sat_add, sat_sub, Rect};

verus! {

/// The number of themes, as the theme list's documentation gives it.
pub const THEME_COUNT: usize = 15;

/// Calls `ratatui_themes::ThemeName::all` and takes the length of the list;
/// the contract claims the fifteen themes its documentation and source list.
#[verifier::external_body]
fn theme_count() -> (r: usize)
    ensures
        r == THEME_COUNT,
{
    ratatui_themes::ThemeName::all().len()
}

/// The length in bytes of the display name of the theme at `index`, in the
/// order of the theme list: Dracula, One Dark Pro, Nord, Catppuccin Mocha,
/// Catppuccin Latte, Gruvbox Dark, Gruvbox Light, Tokyo Night, Solarized
/// Dark, Solarized Light, Monokai Pro, Rosé Pine (its é takes two bytes),
/// Kanagawa, Everforest, Cyberpunk.
pub open spec fn theme_name_bytes(index: nat) -> nat {
    if index == 0 { 7 }
    else if index == 1 { 12 }
    else if index == 2 { 4 }
    else if index == 3 { 16 }
    else if index == 4 { 16 }
    else if index == 5 { 12 }
    else if index == 6 { 13 }
    else if index == 7 { 11 }
    else if index == 8 { 14 }
    else if index == 9 { 15 }
    else if index == 10 { 11 }
    else if index == 11 { 10 }
    else if index == 12 { 8 }
    else if index == 13 { 10 }
    else { 9 }
}

/// Calls `ratatui_themes::ThemeName::display_name` on the theme at `index`
/// of `ThemeName::all` and takes its length in bytes; the contract claims
/// the lengths of the names that function's source returns.
#[verifier::external_body]
fn theme_display_len(index: usize) -> (r: usize)
    requires
        index < THEME_COUNT,
    ensures
        r == theme_name_bytes(index as nat),
{
    ratatui_themes::ThemeName::all()[index].display_name().len()
}

/// A color theme, by its position in the theme list.
#[derive(Debug, Clone, Copy, PartialEq, Eq, Structural)]
pub struct Theme {
    pub index: usize,
}

impl Theme {
    /// The default theme: the first of the list.
    pub fn default_theme() -> (r: Theme)
        ensures
            r.index == 0,
    {
        Theme { index: 0 }
    }

    /// Whether the position lies in the list.
    pub open spec fn wf(self) -> bool {
        self.index < THEME_COUNT
    }

    /// The position of a theme in the list; a position past it counts as the first.
    pub open spec fn position(self) -> int {
        if self.index < THEME_COUNT {
            self.index as int
        } else {
            0
        }
    }

    /// The next theme in the list, wrapping around at the end.
    pub fn next(self) -> (r: Theme)
        ensures
            r.index == (self.position() + 1) % (THEME_COUNT as int),
            r.wf(),
    {
        let n = theme_count();
        let current = if self.index < n {
            self.index
        } else {
            0
        };
        Theme { index: (current + 1) % n }
    }

    /// The previous theme in the list, wrapping around at the beginning.
    pub fn prev(self) -> (r: Theme)
        ensures
            r.index == (self.position() + THEME_COUNT - 1) % (THEME_COUNT as int),
            r.wf(),
    {
        let n = theme_count();
        let current = if self.index < n {
            self.index
        } else {
            0
        };
        Theme { index: (current + n - 1) % n }
    }
}

/// Actions emitted by the theme picker for the parent to process.
#[derive(Debug, Clone, Copy, PartialEq, Eq, Structural)]
pub enum ThemePickerAction {
    /// Preview a theme (set as active). Emitted on navigation and click.
    PreviewTheme(Theme),
    /// Confirm the current preview (close picker, keep theme).
    Confirmed,
    /// Cancel and restore the original theme.
    Cancelled(Theme),
}

/// The open picker: the theme it was opened with and the highlighted row.
#[derive(Debug, Clone, Copy, PartialEq, Eq, Structural)]
pub struct ThemePickerInner {
    pub original_theme: Theme,
    pub selected_index: usize,
}

/// Self-contained theme picker overlay.
#[derive(Debug, Clone, Copy)]
pub struct ThemePickerComponent {
    pub state: Option<ThemePickerInner>,
    /// The viewport area, set before the overlay is placed.
    pub viewport: Rect,
    /// Mouse position from parent, used for hover highlighting.
    pub mouse_position: Option<(u16, u16)>,
}

/// What a rendered picker needs: its anchor, its size and the highlighted row.
#[derive(Debug, Clone, Copy)]
pub struct ThemeOverlayPlan {
    pub anchor: Rect,
    pub width: u16,
    pub height: u16,
    pub selected_index: usize,
    pub mouse_position: Option<(u16, u16)>,
}

/// The longest display name, in bytes, among the first `n` themes.
pub open spec fn longest_name(n: nat) -> nat
    decreases n,
{
    if n == 0 {
        0
    } else {
        let rest = longest_name((n - 1) as nat);
        if theme_name_bytes((n - 1) as nat) > rest {
            theme_name_bytes((n - 1) as nat)
        } else {
            rest
        }
    }
}

/// The longest display name takes sixteen bytes.
proof fn lemma_longest_name()
    ensures
        longest_name(THEME_COUNT as nat) == 16,
{
    reveal_with_fuel(longest_name, 16);
}

impl ThemePickerComponent {
    /// The highlighted row stays within the theme list.
    pub open spec fn wf(self) -> bool {
        self.state matches Some(s) ==> s.selected_index < THEME_COUNT
    }

    /// A closed picker.
    pub fn new() -> (r: ThemePickerComponent)
        ensures
            r.state is None,
            r.viewport == Rect::zero_spec(),
            r.mouse_position is None,
    {
        ThemePickerComponent { state: None, viewport: Rect::zero(), mouse_position: None }
    }

    /// Whether the picker is open.
    pub fn is_open(&self) -> (r: bool)
        ensures
            r == self.state is Some,
    {
        self.state.is_some()
    }

    /// Open the picker on `current_theme`'s row, remembering it for Esc.
    pub fn open(&mut self, current_theme: Theme)
        ensures
            final(self).state == Some(
                ThemePickerInner {
                    original_theme: current_theme,
                    selected_index: current_theme.position() as usize,
                },
            ),
            final(self).viewport == old(self).viewport,
            final(self).mouse_position == old(self).mouse_position,
            final(self).wf(),
    {
        let n = theme_count();
        let selected_index = if current_theme.index < n {
            current_theme.index
        } else {
            0
        };
        self.state = Some(ThemePickerInner { original_theme: current_theme, selected_index });
    }

    /// Close the picker.
    pub fn close(&mut self)
        ensures
            *final(self) == (ThemePickerComponent { state: None, ..*old(self) }),
    {
        self.state = None;
    }

    /// Set the viewport the overlay is placed in.
    pub fn set_viewport(&mut self, viewport: Rect)
        ensures
            *final(self) == (ThemePickerComponent { viewport, ..*old(self) }),
    {
        self.viewport = viewport;
    }

    /// Update the mouse position for hover highlighting.
    pub fn set_mouse_position(&mut self, pos: Option<(u16, u16)>)
        ensures
            *final(self) == (ThemePickerComponent { mouse_position: pos, ..*old(self) }),
    {
        self.mouse_position = pos;
    }

    /// The highlighted row of an open picker.
    pub fn selected_index(&self) -> (r: Option<usize>)
        ensures
            r == match self.state {
                Some(s) => Some(s.selected_index),
                None => None,
            },
    {
        match self.state {
            Some(s) => Some(s.selected_index),
            None => None,
        }
    }

    /// The theme an open picker was opened with.
    pub fn original_theme(&self) -> (r: Option<Theme>)
        ensures
            r == match self.state {
                Some(s) => Some(s.original_theme),
                None => None,
            },
    {
        match self.state {
            Some(s) => Some(s.original_theme),
            None => None,
        }
    }

    /// A click while the picker is open: a row of the list previews that
    /// theme and closes the picker; anywhere else cancels back to the
    /// original theme. Nothing happens while it is closed.
    pub fn click_at(&mut self, col: u16, row: u16, overlay_rect: Option<Rect>) -> (r: Option<
        ThemePickerAction,
    >)
        ensures
            old(self).state is None ==> r is None && *final(self) == *old(self),
            old(self).state matches Some(s) ==> final(self).state is None
                && final(self).viewport == old(self).viewport && final(self).mouse_position
                == old(self).mouse_position && r == Some(
                match picker_row_at(overlay_rect, col, row) {
                    Some(i) => ThemePickerAction::PreviewTheme(Theme { index: i as usize }),
                    None => ThemePickerAction::Cancelled(s.original_theme),
                },
            ),
    {
        let original = match self.state {
            Some(s) => s.original_theme,
            None => return None,
        };
        if let Some(rect) = overlay_rect {
            if (row as u32) >= (rect.y as u32) + 1 && (row as u32) < (rect.y as u32) + (
            rect.height.saturating_sub(1) as u32) && col >= rect.x && (col as u32) < (rect.x as u32)
                + (rect.width as u32) {
                let clicked_index = (row - rect.y - 1) as usize;
                if clicked_index < theme_count() {
                    self.close();
                    return Some(ThemePickerAction::PreviewTheme(Theme { index: clicked_index }));
                }
            }
        }
        self.close();
        Some(ThemePickerAction::Cancelled(original))
    }

    /// The picker's size: the longest theme name (sixteen bytes) plus the
    /// cursor, padding and borders wide, and all themes plus the borders tall
    /// (at most the viewport's height less two).
    pub fn overlay_size(&self) -> (r: (u16, u16))
        ensures
            r.0 == 22,
            r.1 == min16(17, sat_sub(self.viewport.height, 2)),
    {
        let n = theme_count();
        let mut max_len: usize = 0;
        let mut i: usize = 0;
        while i < n
            invariant
                n == THEME_COUNT,
                i <= n,
                max_len == longest_name(i as nat),
            decreases n - i,
        {
            let l = theme_display_len(i);
            if l > max_len {
                max_len = l;
            }
            i = i + 1;
        }
        proof {
            lemma_longest_name();
        }
        let width = (max_len as u16) + 6;
        let total: u16 = 17;
        let h = self.viewport.height.saturating_sub(2);
        let height = if total < h {
            total
        } else {
            h
        };
        (width, height)
    }

    /// The theme row under the mouse in a picker drawn in `area`, if any.
    pub fn hovered_row(&self, area: Rect) -> (r: Option<usize>)
        ensures
            r == match self.mouse_position {
                Some((col, row)) => match picker_row_at(Some(area), col, row) {
                    Some(i) => Some(i as usize),
                    None => None,
                },
                None => None,
            },
    {
        let (col, row) = match self.mouse_position {
            Some(p) => p,
            None => return None,
        };
        if (row as u32) >= (area.y as u32) + 1 && (row as u32) < (area.y as u32) + (area.height.saturating_sub(1) as u32)
            && col >= area.x && (col as u32) < (area.x as u32) + (area.width as u32) {
            let idx = (row - area.y - 1) as usize;
            if idx < theme_count() {
                return Some(idx);
            }
        }
        None
    }

    /// The overlays to draw: the picker's plan when it is open, none when closed.
    pub fn collect_overlays(&self) -> (r: Vec<ThemeOverlayPlan>)
        ensures
            self.state is None ==> r@.len() == 0,
            self.state matches Some(s) ==> r@.len() == 1 && r@[0].selected_index == s.selected_index
                && r@[0].mouse_position == self.mouse_position,
    {
        let mut r: Vec<ThemeOverlayPlan> = Vec::new();
        if let Some(plan) = self.overlay_plan() {
            r.push(plan);
        }
        r
    }

    /// Where an open picker sits and what it shows: right-aligned in the
    /// viewport, just above the help bar on its last row.
    pub fn overlay_plan(&self) -> (r: Option<ThemeOverlayPlan>)
        ensures
            self.state is None ==> r is None,
            self.state matches Some(s) ==> (r matches Some(p) && p.selected_index == s.selected_index
                && p.mouse_position == self.mouse_position && p.anchor.x == sat_sub(
                sat_add(self.viewport.x, self.viewport.width),
                p.width,
            ) && p.anchor.y == sat_sub(
                sat_sub(sat_add(self.viewport.y, self.viewport.height), 1),
                p.height,
            ) && p.anchor.width == 0 && p.anchor.height == 0),
    {
        let s = match self.state {
            Some(s) => s,
            None => return None,
        };
        let (width, height) = self.overlay_size();
        let anchor_x = self.viewport.right().saturating_sub(width);
        let help_bar_y = self.viewport.bottom().saturating_sub(1);
        let anchor_y = help_bar_y.saturating_sub(height);
        let anchor = Rect::new(anchor_x, anchor_y, 0, 0);
        Some(
            ThemeOverlayPlan {
                anchor,
                width,
                height,
                selected_index: s.selected_index,
                mouse_position: self.mouse_position,
            },
        )
    }

    /// Esc cancels back to the original theme, Enter confirms, Up/k and
    /// Down/j move the highlight (wrapping) and preview its theme; other keys
    /// are swallowed while open.
    pub fn handle_key(&mut self, key: KeyPress) -> (r: EventResult<ThemePickerAction>)
        requires
            old(self).wf(),
        ensures
            final(self).wf(),
            final(self).viewport == old(self).viewport,
            final(self).mouse_position == old(self).mouse_position,
            old(self).state is None ==> r is NotHandled && final(self).state is None,
            old(self).state matches Some(s) ==> picker_key_effect(s, key.code, final(self).state, r),
    {
        let inner = match self.state {
            Some(s) => s,
            None => return EventResult::NotHandled,
        };
        let len = theme_count();
        match key.code {
            KeyCode::Esc => {
                self.close();
                EventResult::Action(ThemePickerAction::Cancelled(inner.original_theme))
            },
            KeyCode::Enter => {
                self.close();
                EventResult::Action(ThemePickerAction::Confirmed)
            },
            KeyCode::Up | KeyCode::Char('k') => {
                let idx = if inner.selected_index > 0 {
                    inner.selected_index - 1
                } else {
                    len - 1
                };
                self.state = Some(ThemePickerInner { selected_index: idx, ..inner });
                EventResult::Action(ThemePickerAction::PreviewTheme(Theme { index: idx }))
            },
            KeyCode::Down | KeyCode::Char('j') => {
                let idx = if inner.selected_index + 1 < len {
                    inner.selected_index + 1
                } else {
                    0
                };
                self.state = Some(ThemePickerInner { selected_index: idx, ..inner });
                EventResult::Action(ThemePickerAction::PreviewTheme(Theme { index: idx }))
            },
            _ => EventResult::Consumed,
        }
    }
}

/// The list row under `(col, row)` in a picker drawn in `overlay_rect`
/// (inside its borders), if it names a theme.
pub open spec fn picker_row_at(overlay_rect: Option<Rect>, col: u16, row: u16) -> Option<int> {
    match overlay_rect {
        Some(rect) => if row >= rect.y + 1 && row < rect.y + sat_sub(rect.height, 1) && col
            >= rect.x && col < rect.x + rect.width && row - rect.y - 1 < THEME_COUNT {
            Some(row - rect.y - 1)
        } else {
            None
        },
        None => None,
    }
}

/// What a key does to an open picker `s`.
pub open spec fn picker_key_effect(
    s: ThemePickerInner,
    code: KeyCode,
    new_state: Option<ThemePickerInner>,
    r: EventResult<ThemePickerAction>,
) -> bool {
    match code {
        KeyCode::Esc => new_state is None && r == EventResult::Action(
            ThemePickerAction::Cancelled(s.original_theme),
        ),
        KeyCode::Enter => new_state is None && r == EventResult::Action(ThemePickerAction::Confirmed),
        KeyCode::Up | KeyCode::Char('k') => {
            let idx = if s.selected_index > 0 {
                (s.selected_index - 1) as usize
            } else {
                (THEME_COUNT - 1) as usize
            };
            new_state == Some(ThemePickerInner { selected_index: idx, ..s }) && r
                == EventResult::Action(ThemePickerAction::PreviewTheme(Theme { index: idx }))
        },
        KeyCode::Down | KeyCode::Char('j') => {
            let idx = if s.selected_index + 1 < THEME_COUNT {
                (s.selected_index + 1) as usize
            } else {
                0
            };
            new_state == Some(ThemePickerInner { selected_index: idx, ..s }) && r
                == EventResult::Action(ThemePickerAction::PreviewTheme(Theme { index: idx }))
        },
        _ => new_state == Some(s) && r is Consumed,
    }
}

/// Moving down and then up in the picker comes back to the same theme.
pub proof fn lemma_picker_down_up(s: ThemePickerInner)
    requires
        s.selected_index < THEME_COUNT,
    ensures
        ({
            let down = if s.selected_index + 1 < THEME_COUNT {
                (s.selected_index + 1) as usize
            } else {
                0usize
            };
            let up = if down > 0 {
                (down - 1) as usize
            } else {
                (THEME_COUNT - 1) as usize
            };
            up == s.selected_index
        }),
{
}

/// Cycling to the next theme and back returns to the same theme.
pub proof fn lemma_theme_next_prev(t: Theme)
    requires
        t.wf(),
    ensures
        ((t.index + 1) % (THEME_COUNT as int) + THEME_COUNT - 1) % (THEME_COUNT as int) == t.index,
{
}

} // verus!
