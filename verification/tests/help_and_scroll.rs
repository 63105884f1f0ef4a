use tuisage::events::Focus;
use tuisage::execution::status_text;
use tuisage::help_bar::{help_padding, keybinds, HelpContext, Keybind};
use tuisage::select_list::SelectListScrollState;

fn pairs(binds: &[Keybind]) -> Vec<(String, String)> {
    binds.iter().map(|b| (b.key.to_string(), b.desc.to_string())).collect()
}

#[test]
fn test_keybinds_for_flags_panel() {
    let binds = keybinds(HelpContext::Panel(Focus::Flags));
    assert_eq!(binds.len(), 6);
    assert_eq!(binds[0].key, "⏎/Space");
    assert_eq!(binds[0].desc, "toggle");
    assert_eq!(binds[5].key, "q");
    assert_eq!(binds[5].desc, "quit");
}

#[test]
fn test_keybinds_for_modes() {
    assert_eq!(
        pairs(&keybinds(HelpContext::Choosing)),
        vec![
            ("↑↓".to_string(), "select".to_string()),
            ("⏎".to_string(), "confirm".to_string()),
            ("Esc".to_string(), "keep text".to_string()),
        ]
    );
    assert_eq!(
        pairs(&keybinds(HelpContext::Editing)),
        vec![("⏎".to_string(), "confirm".to_string()), ("Esc".to_string(), "cancel".to_string())]
    );
    assert_eq!(keybinds(HelpContext::FilterApplied)[0].key, "↑↓/jk");
    assert_eq!(keybinds(HelpContext::Panel(Focus::Preview))[0].desc, "run");
}

#[test]
fn test_help_padding_fills_the_rest() {
    // " ⏎ run  ⇥ next  q quit" is 22 columns wide.
    let binds = keybinds(HelpContext::Panel(Focus::Preview));
    assert_eq!(help_padding(80, &binds, 13), 45);
    assert_eq!(help_padding(35, &binds, 13), 0);
    assert_eq!(help_padding(36, &binds, 13), 1);
    assert_eq!(help_padding(30, &binds, 13), 0);
}

#[test]
fn test_help_padding_without_hints() {
    let binds: Vec<Keybind> = Vec::new();
    assert_eq!(help_padding(10, &binds, 4), 5);
    assert_eq!(help_padding(3, &binds, 4), 0);
}

#[test]
fn test_scroll_state_keeps_selection_visible() {
    let state = SelectListScrollState::for_viewport(Some(10), 7, false, true);
    assert_eq!(state.visible_items, 6);
    assert_eq!(state.scroll_offset, 5);
    assert_eq!(state.scrollbar(20), Some((14, 5)));
    assert_eq!(state.scrollbar(6), None);
}

#[test]
fn test_scroll_state_near_top() {
    let state = SelectListScrollState::for_viewport(Some(3), 7, true, true);
    assert_eq!(state.visible_items, 5);
    assert_eq!(state.scroll_offset, 0);
    assert_eq!(state.scrollbar(9), Some((4, 0)));
}

#[test]
fn test_scroll_state_without_rows() {
    let state = SelectListScrollState::for_viewport(None, 1, true, true);
    assert_eq!(state.visible_items, 0);
    assert_eq!(state.scroll_offset, 0);
    assert_eq!(state.scrollbar(3), None);
    let empty = SelectListScrollState::default();
    assert_eq!(empty.scroll_offset, 0);
    assert_eq!(empty.visible_items, 0);
}

#[test]
fn test_status_text_while_running_and_after_exit() {
    assert_eq!(status_text(false, ""), " Running… (input is forwarded to the process) ");
    assert_eq!(status_text(true, "0"), " Exited (0) — press Esc/⏎/q to close ");
    assert_eq!(status_text(true, ""), " Exited (unknown) — press Esc/⏎/q to close ");
}
