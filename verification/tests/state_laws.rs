use tuisage::app::App;
use tuisage::command_builder::split_whitespace_words;
use tuisage::events::{Focus, FocusRing, KeyCode, KeyPress};
use tuisage::list_state::{PickerState, TextInput};
use tuisage::spec_model::{ArgSpec, CliSpec, CommandSpec, FlagSpec};
use tuisage::values::FlagValue;

#[test]
fn test_negatable_toggle_cycles_in_three() {
    let mut v = FlagValue::NegBool(None);
    v.toggle();
    assert_eq!(v, FlagValue::NegBool(Some(true)));
    v.toggle();
    assert_eq!(v, FlagValue::NegBool(Some(false)));
    v.toggle();
    assert_eq!(v, FlagValue::NegBool(None));
}

#[test]
fn test_bool_toggle_twice_is_identity_and_clear_undoes_count() {
    let mut v = FlagValue::Bool(false);
    v.toggle();
    v.toggle();
    assert_eq!(v, FlagValue::Bool(false));
    let mut c = FlagValue::Count(4);
    c.toggle();
    assert_eq!(c, FlagValue::Count(5));
    c.clear();
    assert_eq!(c, FlagValue::Count(4));
    let mut zero = FlagValue::Count(0);
    zero.clear();
    assert_eq!(zero, FlagValue::Count(0));
    let mut s = FlagValue::String("x".to_string());
    s.toggle();
    assert_eq!(s, FlagValue::String("x".to_string()));
    s.clear();
    assert_eq!(s, FlagValue::String(String::new()));
}

#[test]
fn test_negatable_click_twice_returns_to_omitted() {
    let mut v = FlagValue::NegBool(None);
    v.click_negatable(Some(false));
    assert_eq!(v, FlagValue::NegBool(Some(false)));
    v.click_negatable(Some(false));
    assert_eq!(v, FlagValue::NegBool(None));
    v.click_negatable(Some(true));
    v.click_negatable(Some(false));
    assert_eq!(v, FlagValue::NegBool(Some(false)));
}

#[test]
fn test_insert_then_backspace_restores_text() {
    let mut t = TextInput::empty();
    t.set_text("héllo");
    t.move_left();
    t.move_left();
    let before = t.text();
    t.insert_char('X');
    assert_eq!(t.text(), "hélXlo");
    assert!(t.delete_char_backward());
    assert_eq!(t.text(), before);
    assert_eq!(t.text_before_cursor(), "hél");
    assert_eq!(t.text_after_cursor(), "lo");
}

#[test]
fn test_ensure_visible_keeps_selection_in_view() {
    let mut s = PickerState::new(100);
    s.select(42);
    s.ensure_visible(10);
    assert!(s.scroll as usize <= 42 && 42 < s.scroll as usize + 10);
    assert_eq!(s.scroll, 33);
    s.select(5);
    s.ensure_visible(10);
    assert_eq!(s.scroll, 5);
    s.ensure_visible(0);
    assert_eq!(s.scroll, 5);
}

#[test]
fn test_focus_ring_next_prev_round_trip() {
    let mut ring = FocusRing::new();
    ring.register(Focus::Commands);
    ring.register(Focus::Args);
    ring.register(Focus::Preview);
    ring.register(Focus::Args);
    assert_eq!(ring.elements, vec![Focus::Commands, Focus::Args, Focus::Preview]);
    assert_eq!(ring.current(), Some(Focus::Commands));
    ring.prev();
    assert_eq!(ring.current(), Some(Focus::Preview));
    ring.next();
    assert_eq!(ring.current(), Some(Focus::Commands));
    ring.set(Focus::Flags);
    assert_eq!(ring.current(), Some(Focus::Commands));
    ring.set(Focus::Args);
    assert_eq!(ring.current(), Some(Focus::Args));
}

#[test]
fn test_split_whitespace_words_uses_unicode_whitespace() {
    assert_eq!(split_whitespace_words("  mise\trun\u{3000}now "), vec!["mise", "run", "now"]);
    let empty: Vec<String> = Vec::new();
    assert_eq!(split_whitespace_words(" \n "), empty);
}

fn command(name: &str, flags: Vec<FlagSpec>, args: Vec<ArgSpec>, subcommands: Vec<CommandSpec>) -> CommandSpec {
    CommandSpec {
        name: name.to_string(),
        help: None,
        aliases: Vec::new(),
        hidden_aliases: Vec::new(),
        hide: false,
        flags,
        args,
        subcommands,
        complete: Vec::new(),
    }
}

fn count_flag(name: &str, short: char) -> FlagSpec {
    FlagSpec {
        name: name.to_string(),
        help: None,
        short: vec![short],
        long: vec![name.to_string()],
        required: false,
        hide: false,
        global: false,
        count: true,
        arg: None,
        default: Vec::new(),
        negate: None,
    }
}

fn two_command_spec() -> CliSpec {
    CliSpec {
        name: "t".to_string(),
        bin: "t".to_string(),
        cmd: command(
            "t",
            Vec::new(),
            Vec::new(),
            vec![
                command("a", vec![count_flag("verbose", 'v')], Vec::new(), Vec::new()),
                command(
                    "b",
                    Vec::new(),
                    vec![ArgSpec {
                        name: "x".to_string(),
                        help: None,
                        required: false,
                        hide: false,
                        choices: None,
                        default: Vec::new(),
                    }],
                    Vec::new(),
                ),
            ],
        ),
    }
}

#[test]
fn test_flag_settings_kept_across_visit() {
    let mut app = App::new(two_command_spec());
    app.navigate_to_command(&vec!["a".to_string()]);
    app.set_focus(Focus::Flags);
    app.handle_key(KeyPress::new(KeyCode::Char(' ')));
    app.handle_key(KeyPress::new(KeyCode::Char(' ')));
    assert_eq!(app.current_flag_values()[0].1, FlagValue::Count(2));
    assert_eq!(app.build_command(), "t a -vv");
    app.navigate_to_command(&vec!["b".to_string()]);
    assert_eq!(app.build_command(), "t b");
    app.navigate_to_command(&vec!["a".to_string()]);
    assert_eq!(app.current_flag_values()[0].1, FlagValue::Count(2));
}

#[test]
fn test_focus_order_skips_empty_panels_and_keeps_preview() {
    let mut app = App::new(two_command_spec());
    app.navigate_to_command(&vec!["b".to_string()]);
    assert_eq!(app.focus_manager.elements, vec![Focus::Commands, Focus::Args, Focus::Preview]);
    app.navigate_to_command(&vec!["a".to_string()]);
    assert_eq!(app.focus_manager.elements, vec![Focus::Commands, Focus::Flags, Focus::Preview]);
}

#[test]
fn test_navigate_sets_path_and_selection() {
    let mut app = App::new(two_command_spec());
    app.navigate_to_command(&vec!["b".to_string()]);
    assert_eq!(app.command_path, vec!["b".to_string()]);
    assert_eq!(app.command_index(), 1);
    assert_eq!(app.current_command().name, "b");
}
