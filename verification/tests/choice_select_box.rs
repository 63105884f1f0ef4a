use tuisage::choice_select::{compute_scroll_offset, overlay_hovered_index, ChoiceSelectAction, ChoiceSelectComponent};
use tuisage::events::{EventResult, KeyCode, KeyPress};
use tuisage::geometry::Rect;

fn make_choices() -> Vec<String> {
    vec!["alpha".to_string(), "beta".to_string(), "gamma".to_string(), "delta".to_string()]
}

fn key(code: KeyCode) -> KeyPress {
    KeyPress::new(code)
}

fn make_many_choices() -> Vec<String> {
    (0..15).map(|i| format!("item_{i:02}")).collect()
}

#[test]
fn choice_select_test_open_close_lifecycle() {
    let mut cs = ChoiceSelectComponent::new();
    assert!(!cs.is_open());
    cs.open(make_choices(), "beta", Rect::new(0, 0, 20, 1));
    assert!(cs.is_open());
    cs.close();
    assert!(!cs.is_open());
}

#[test]
fn test_open_preselects_matching_value() {
    let mut cs = ChoiceSelectComponent::new();
    cs.open(make_choices(), "gamma", Rect::new(0, 0, 20, 1));
    let inner = cs.state.as_ref().unwrap();
    assert_eq!(inner.selected_index, Some(2));
}

#[test]
fn test_open_no_match_preselects_none() {
    let mut cs = ChoiceSelectComponent::new();
    cs.open(make_choices(), "nonexistent", Rect::new(0, 0, 20, 1));
    let inner = cs.state.as_ref().unwrap();
    assert_eq!(inner.selected_index, None);
}

#[test]
fn test_enter_confirms_selected() {
    let mut cs = ChoiceSelectComponent::new();
    cs.open(make_choices(), "beta", Rect::new(0, 0, 20, 1));
    let result = cs.handle_key(key(KeyCode::Enter));
    assert_eq!(result, EventResult::Action(ChoiceSelectAction::Selected("beta".to_string())));
    assert!(!cs.is_open());
}

#[test]
fn test_enter_with_no_selection_uses_typed_text() {
    let mut cs = ChoiceSelectComponent::new();
    cs.open(make_choices(), "custom", Rect::new(0, 0, 20, 1));
    let result = cs.handle_key(key(KeyCode::Enter));
    assert_eq!(result, EventResult::Action(ChoiceSelectAction::Selected("custom".to_string())));
}

#[test]
fn test_esc_cancels_with_typed_text() {
    let mut cs = ChoiceSelectComponent::new();
    cs.open(make_choices(), "beta", Rect::new(0, 0, 20, 1));
    let result = cs.handle_key(key(KeyCode::Esc));
    assert_eq!(result, EventResult::Action(ChoiceSelectAction::Cancelled("beta".to_string())));
    assert!(!cs.is_open());
}

#[test]
fn test_down_navigates_selection() {
    let mut cs = ChoiceSelectComponent::new();
    cs.open(make_choices(), "", Rect::new(0, 0, 20, 1));
    assert_eq!(cs.handle_key(key(KeyCode::Down)), EventResult::Consumed);
    assert_eq!(cs.state.as_ref().unwrap().selected_index, Some(0));
    assert_eq!(cs.handle_key(key(KeyCode::Down)), EventResult::Consumed);
    assert_eq!(cs.state.as_ref().unwrap().selected_index, Some(1));
}

#[test]
fn test_up_from_first_deselects() {
    let mut cs = ChoiceSelectComponent::new();
    cs.open(make_choices(), "alpha", Rect::new(0, 0, 20, 1));
    assert_eq!(cs.handle_key(key(KeyCode::Up)), EventResult::Consumed);
    assert_eq!(cs.state.as_ref().unwrap().selected_index, None);
}

#[test]
fn test_typing_activates_filter_and_clears_selection() {
    let mut cs = ChoiceSelectComponent::new();
    cs.open(make_choices(), "beta", Rect::new(0, 0, 20, 1));
    assert_eq!(cs.state.as_ref().unwrap().selected_index, Some(1));
    assert!(!cs.state.as_ref().unwrap().filter_active);
    assert_eq!(cs.handle_key(key(KeyCode::Char('a'))), EventResult::Consumed);
    let inner = cs.state.as_ref().unwrap();
    assert!(inner.filter_active);
    assert_eq!(inner.selected_index, None);
    assert_eq!(inner.edit_input.text(), "betaa");
}

#[test]
fn test_filtering_narrows_choices() {
    let mut cs = ChoiceSelectComponent::new();
    cs.open(make_choices(), "", Rect::new(0, 0, 20, 1));
    cs.handle_key(key(KeyCode::Char('a')));
    cs.handle_key(key(KeyCode::Char('l')));
    let filtered = cs.filtered_choices();
    assert!(filtered.iter().any(|(_, c)| c == "alpha"));
    assert!(!filtered.iter().any(|(_, c)| c == "beta"));
    assert!(!filtered.iter().any(|(_, c)| c == "gamma"));
    assert!(filtered.len() < 4);
}

#[test]
fn test_backspace_activates_filter() {
    let mut cs = ChoiceSelectComponent::new();
    cs.open(make_choices(), "beta", Rect::new(0, 0, 20, 1));
    assert_eq!(cs.handle_key(key(KeyCode::Backspace)), EventResult::Consumed);
    let inner = cs.state.as_ref().unwrap();
    assert!(inner.filter_active);
    assert_eq!(inner.selected_index, None);
    assert_eq!(inner.edit_input.text(), "bet");
}

#[test]
fn choice_select_test_not_handled_when_closed() {
    let mut cs = ChoiceSelectComponent::new();
    assert_eq!(cs.handle_key(key(KeyCode::Enter)), EventResult::NotHandled);
}

#[test]
fn test_collect_overlays_when_closed() {
    let cs = ChoiceSelectComponent::new();
    assert!(cs.collect_overlays().is_empty());
}

#[test]
fn test_collect_overlays_when_open() {
    let mut cs = ChoiceSelectComponent::new();
    cs.open(make_choices(), "", Rect::new(5, 10, 20, 1));
    let overlays = cs.collect_overlays();
    assert_eq!(overlays.len(), 1);
    let req = &overlays[0];
    assert_eq!(req.anchor, Rect::new(5, 10, 20, 1));
    assert!(req.width > 0);
    assert_eq!(req.height, 5);
}

#[test]
fn test_click_select() {
    let mut cs = ChoiceSelectComponent::new();
    cs.open(make_choices(), "", Rect::new(0, 0, 20, 1));
    let result = cs.click_select(2);
    assert_eq!(result, Some(ChoiceSelectAction::Selected("gamma".to_string())));
    assert!(!cs.is_open());
}

#[test]
fn test_click_select_out_of_range() {
    let mut cs = ChoiceSelectComponent::new();
    cs.open(make_choices(), "", Rect::new(0, 0, 20, 1));
    let result = cs.click_select(100);
    assert_eq!(result, None);
    assert!(cs.is_open());
}

#[test]
fn test_open_with_descriptions() {
    let mut cs = ChoiceSelectComponent::new();
    let descs = vec![Some("First letter".to_string()), None, Some("Third letter".to_string()), None];
    cs.open_with_descriptions(make_choices(), descs.clone(), "", Rect::new(0, 0, 20, 1));
    let inner = cs.state.as_ref().unwrap();
    assert_eq!(inner.descriptions, descs);
}

#[test]
fn test_down_does_not_exceed_filtered_count() {
    let mut cs = ChoiceSelectComponent::new();
    cs.open(vec!["a".to_string(), "b".to_string()], "", Rect::new(0, 0, 20, 1));
    cs.handle_key(key(KeyCode::Down));
    cs.handle_key(key(KeyCode::Down));
    cs.handle_key(key(KeyCode::Down));
    assert_eq!(cs.state.as_ref().unwrap().selected_index, Some(1));
}

#[test]
fn test_click_select_with_scroll_offset() {
    let mut cs = ChoiceSelectComponent::new();
    cs.open(make_many_choices(), "", Rect::new(0, 0, 20, 1));
    for _ in 0..13 {
        cs.handle_key(key(KeyCode::Down));
    }
    assert_eq!(cs.selected_index(), Some(12));
    let visible = 10usize;
    let scroll = cs.compute_scroll_offset(visible);
    assert_eq!(scroll, 3, "scroll_offset should be 3 when selected=12, visible=10");
    let clicked_index = 5 + scroll;
    let result = cs.click_select(clicked_index);
    assert_eq!(result, Some(ChoiceSelectAction::Selected("item_08".to_string())));
}

#[test]
fn test_scroll_offset_computation() {
    let mut cs = ChoiceSelectComponent::new();
    cs.open(make_many_choices(), "", Rect::new(0, 0, 20, 1));
    assert_eq!(cs.compute_scroll_offset(10), 0);
    for _ in 0..6 {
        cs.handle_key(key(KeyCode::Down));
    }
    assert_eq!(cs.selected_index(), Some(5));
    assert_eq!(cs.compute_scroll_offset(10), 0);
    for _ in 0..5 {
        cs.handle_key(key(KeyCode::Down));
    }
    assert_eq!(cs.selected_index(), Some(10));
    assert_eq!(cs.compute_scroll_offset(10), 1);
    for _ in 0..4 {
        cs.handle_key(key(KeyCode::Down));
    }
    assert_eq!(cs.selected_index(), Some(14));
    assert_eq!(cs.compute_scroll_offset(10), 5);
}

#[test]
fn test_scroll_offset_formula_values() {
    assert_eq!(compute_scroll_offset(None, 10), 0);
    assert_eq!(compute_scroll_offset(Some(3), 10), 0);
    assert_eq!(compute_scroll_offset(Some(12), 10), 3);
    assert_eq!(compute_scroll_offset(Some(12), 0), 0);
}

#[test]
fn test_hover_accounts_for_scroll() {
    let mut cs = ChoiceSelectComponent::new();
    cs.open(make_many_choices(), "", Rect::new(0, 0, 20, 1));
    for _ in 0..13 {
        cs.handle_key(key(KeyCode::Down));
    }
    assert_eq!(cs.selected_index(), Some(12));
    cs.set_mouse_position(Some((5, 4)));
    let overlays = cs.collect_overlays();
    assert_eq!(overlays.len(), 1);
    let req = &overlays[0];
    let area = Rect::new(0, 1, req.width, req.height);
    let hovered = overlay_hovered_index(req.mouse_position, area, req.selected_index, req.labels.len());
    assert_eq!(hovered, Some(6));
}
