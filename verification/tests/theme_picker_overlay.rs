use ratatui_themes::ThemeName;
use tuisage::events::{EventResult, KeyCode, KeyPress};
use tuisage::geometry::Rect;
use tuisage::theme_picker::{Theme, ThemePickerAction, ThemePickerComponent, THEME_COUNT};

fn key(code: KeyCode) -> KeyPress {
    KeyPress::new(code)
}

fn theme(name: ThemeName) -> Theme {
    Theme { index: ThemeName::all().iter().position(|t| *t == name).unwrap() }
}

#[test]
fn theme_picker_test_open_close_lifecycle() {
    let mut tp = ThemePickerComponent::new();
    assert!(!tp.is_open());
    tp.open(theme(ThemeName::Dracula));
    assert!(tp.is_open());
    assert_eq!(tp.selected_index(), Some(0));
    assert_eq!(tp.original_theme(), Some(theme(ThemeName::Dracula)));
    tp.close();
    assert!(!tp.is_open());
    assert_eq!(tp.selected_index(), None);
}

#[test]
fn test_navigate_down_up() {
    let mut tp = ThemePickerComponent::new();
    tp.open(theme(ThemeName::Dracula));
    let result = tp.handle_key(key(KeyCode::Down));
    assert!(matches!(result, EventResult::Action(ThemePickerAction::PreviewTheme(_))));
    assert_eq!(tp.selected_index(), Some(1));
    let result = tp.handle_key(key(KeyCode::Up));
    assert!(matches!(result, EventResult::Action(ThemePickerAction::PreviewTheme(_))));
    assert_eq!(tp.selected_index(), Some(0));
}

#[test]
fn test_wrap_around() {
    let mut tp = ThemePickerComponent::new();
    tp.open(theme(ThemeName::Dracula));
    let result = tp.handle_key(key(KeyCode::Up));
    let all = ThemeName::all();
    assert_eq!(tp.selected_index(), Some(all.len() - 1));
    assert!(matches!(result, EventResult::Action(ThemePickerAction::PreviewTheme(t)) if t == theme(*all.last().unwrap())));
    let result = tp.handle_key(key(KeyCode::Down));
    assert_eq!(tp.selected_index(), Some(0));
    assert!(matches!(result, EventResult::Action(ThemePickerAction::PreviewTheme(t)) if t == theme(ThemeName::Dracula)));
}

#[test]
fn test_jk_navigation() {
    let mut tp = ThemePickerComponent::new();
    tp.open(theme(ThemeName::Dracula));
    tp.handle_key(key(KeyCode::Char('j')));
    assert_eq!(tp.selected_index(), Some(1));
    tp.handle_key(key(KeyCode::Char('k')));
    assert_eq!(tp.selected_index(), Some(0));
}

#[test]
fn test_enter_confirms() {
    let mut tp = ThemePickerComponent::new();
    tp.open(theme(ThemeName::Dracula));
    tp.handle_key(key(KeyCode::Down));
    let result = tp.handle_key(key(KeyCode::Enter));
    assert_eq!(result, EventResult::Action(ThemePickerAction::Confirmed));
    assert!(!tp.is_open());
}

#[test]
fn test_esc_cancels_with_original() {
    let mut tp = ThemePickerComponent::new();
    tp.open(theme(ThemeName::Nord));
    let result = tp.handle_key(key(KeyCode::Esc));
    assert_eq!(result, EventResult::Action(ThemePickerAction::Cancelled(theme(ThemeName::Nord))));
    assert!(!tp.is_open());
}

#[test]
fn theme_picker_test_not_handled_when_closed() {
    let mut tp = ThemePickerComponent::new();
    let result = tp.handle_key(key(KeyCode::Down));
    assert_eq!(result, EventResult::NotHandled);
}

#[test]
fn test_unknown_key_consumed() {
    let mut tp = ThemePickerComponent::new();
    tp.open(theme(ThemeName::Dracula));
    let result = tp.handle_key(key(KeyCode::Char('x')));
    assert_eq!(result, EventResult::Consumed);
    assert!(tp.is_open());
}

#[test]
fn test_collect_overlays_empty_when_closed() {
    let tp = ThemePickerComponent::new();
    assert!(tp.collect_overlays().is_empty());
}

#[test]
fn test_collect_overlays_returns_one_when_open() {
    let mut tp = ThemePickerComponent::new();
    tp.set_viewport(Rect::new(0, 0, 100, 24));
    tp.open(theme(ThemeName::Dracula));
    let overlays = tp.collect_overlays();
    assert_eq!(overlays.len(), 1);
}

#[test]
fn test_click_inside_overlay() {
    let mut tp = ThemePickerComponent::new();
    tp.open(theme(ThemeName::Dracula));
    let result = tp.click_at(85, 7, Some(Rect::new(80, 5, 18, 12)));
    assert!(matches!(result, Some(ThemePickerAction::PreviewTheme(_))));
    assert!(!tp.is_open());
}

#[test]
fn test_click_outside_overlay_cancels() {
    let mut tp = ThemePickerComponent::new();
    tp.open(theme(ThemeName::Nord));
    let result = tp.click_at(5, 5, Some(Rect::new(80, 5, 18, 12)));
    assert_eq!(result, Some(ThemePickerAction::Cancelled(theme(ThemeName::Nord))));
    assert!(!tp.is_open());
}

#[test]
fn test_click_row_previews_that_theme() {
    let mut tp = ThemePickerComponent::new();
    tp.open(theme(ThemeName::Dracula));
    // Row 7 is the second row inside a picker whose top border is at row 5.
    let result = tp.click_at(85, 7, Some(Rect::new(80, 5, 18, 12)));
    assert_eq!(result, Some(ThemePickerAction::PreviewTheme(Theme { index: 1 })));
}

#[test]
fn test_theme_count_matches_theme_list() {
    assert_eq!(THEME_COUNT, ThemeName::all().len());
}

#[test]
fn test_theme_next_prev_round_trip() {
    let t = theme(ThemeName::Nord);
    assert_eq!(t.next().prev(), t);
    let last = Theme { index: THEME_COUNT - 1 };
    assert_eq!(last.next(), Theme { index: 0 });
    assert_eq!(Theme { index: 0 }.prev(), last);
}

#[test]
fn test_overlay_size_fits_longest_name() {
    let mut tp = ThemePickerComponent::new();
    tp.set_viewport(Rect::new(0, 0, 100, 24));
    tp.open(theme(ThemeName::Dracula));
    let longest = ThemeName::all().iter().map(|t| t.display_name().len()).max().unwrap();
    let (w, h) = tp.overlay_size();
    assert_eq!(w as usize, longest + 6);
    assert_eq!(w, 22);
    assert_eq!(h as usize, (THEME_COUNT + 2).min(22));
}

#[test]
fn test_hover_highlight_on_theme_item() {
    let mut tp = ThemePickerComponent::new();
    tp.set_viewport(Rect::new(0, 0, 100, 24));
    tp.open(theme(ThemeName::Dracula));
    // Overlay area: x=80, y=10, inner_top = 11, so row 12 = item index 1.
    let overlay_area = Rect::new(80, 10, 18, 12);
    let hovered_row = 12u16;
    tp.set_mouse_position(Some((85, hovered_row)));
    assert!(tp.overlay_plan().is_some());
    // The hovered row is item 1; the row below it is not hovered.
    assert_eq!(tp.hovered_row(overlay_area), Some(1));
    tp.set_mouse_position(Some((85, hovered_row + 1)));
    assert_eq!(tp.hovered_row(overlay_area), Some(2));
}
