use tuisage::app::App;
use tuisage::help_bar::HelpContext;
use tuisage::events::{Action, Focus, KeyCode, KeyPress, MouseInput, MouseKind};
use tuisage::geometry::Rect;
use tuisage::spec_model::{ArgSpec, CliSpec, CommandSpec, FlagSpec};
use tuisage::theme_picker::Theme;
use tuisage::values::FlagValue;

fn command(name: &str, flags: Vec<FlagSpec>, args: Vec<ArgSpec>, subcommands: Vec<CommandSpec>) -> CommandSpec {
    CommandSpec {
        name: name.to_string(),
        help: None,
        aliases: Vec::new(),
        hidden_aliases: Vec::new(),
        hide: false,
        flags,
        args,
        subcommands,
        complete: Vec::new(),
    }
}

fn arg(name: &str, default: Option<&str>) -> ArgSpec {
    ArgSpec {
        name: name.to_string(),
        help: None,
        required: true,
        hide: false,
        choices: None,
        default: default.iter().map(|d| d.to_string()).collect(),
    }
}

fn bool_flag(name: &str, global: bool) -> FlagSpec {
    FlagSpec {
        name: name.to_string(),
        help: None,
        short: Vec::new(),
        long: vec![name.to_string()],
        required: false,
        hide: false,
        global,
        count: false,
        arg: None,
        default: Vec::new(),
        negate: None,
    }
}

fn path(names: &[&str]) -> Vec<String> {
    names.iter().map(|s| s.to_string()).collect()
}

fn key(code: KeyCode) -> KeyPress {
    KeyPress::new(code)
}

/// The spec of the defaults scenario: `deploy <environment>` with a default,
/// `other <name>` without.
fn defaults_spec() -> CliSpec {
    CliSpec {
        name: "Defaults CLI".to_string(),
        bin: "defaults".to_string(),
        cmd: command(
            "defaults",
            Vec::new(),
            Vec::new(),
            vec![
                command("deploy", Vec::new(), vec![arg("environment", Some("staging"))], Vec::new()),
                command("other", Vec::new(), vec![arg("name", None)], Vec::new()),
            ],
        ),
    }
}

/// A spec with a global root flag and a command flag.
fn flags_spec() -> CliSpec {
    CliSpec {
        name: "Flags CLI".to_string(),
        bin: "tool".to_string(),
        cmd: command(
            "tool",
            vec![bool_flag("verbose", true)],
            Vec::new(),
            vec![command("deploy", vec![bool_flag("force", false)], vec![arg("environment", Some("staging"))], Vec::new())],
        ),
    }
}

#[test]
fn test_arg_defaults_only_apply_on_first_visit() {
    let mut app = App::new(defaults_spec());
    app.navigate_to_command(&path(&["deploy"]));
    assert_eq!(app.arg_values[0].value, "staging");

    app.arg_values[0].value = "prod".to_string();
    app.navigate_to_command(&path(&["other"]));
    app.navigate_to_command(&path(&["deploy"]));

    assert_eq!(app.arg_values[0].value, "prod");
}

#[test]
fn test_new_app_follows_first_command() {
    let app = App::new(defaults_spec());
    assert_eq!(app.command_path, vec!["deploy".to_string()]);
    assert_eq!(app.focus(), Focus::Commands);
    assert_eq!(app.theme_name, Theme { index: 0 });
    assert!(!app.is_executing());
}

#[test]
fn test_build_command_with_default_arg() {
    let mut app = App::new(defaults_spec());
    app.navigate_to_command(&path(&["deploy"]));
    assert_eq!(app.build_command(), "defaults deploy staging");
    assert_eq!(app.build_command_parts(), vec!["defaults", "deploy", "staging"]);
}

#[test]
fn test_quoted_value_in_display_only() {
    let mut app = App::new(defaults_spec());
    app.navigate_to_command(&path(&["deploy"]));
    app.set_arg_value(0, "my env".to_string());
    assert_eq!(app.build_command(), "defaults deploy \"my env\"");
    assert_eq!(app.build_command_parts(), vec!["defaults", "deploy", "my env"]);
}

#[test]
fn test_space_toggles_flag_into_command() {
    let mut app = App::new(flags_spec());
    app.navigate_to_command(&path(&["deploy"]));
    app.set_focus(Focus::Flags);
    assert_eq!(app.focus(), Focus::Flags);
    assert_eq!(app.handle_key(key(KeyCode::Char(' '))), Action::Idle);
    assert_eq!(app.current_flag_values()[0], ("force".to_string(), FlagValue::Bool(true)));
    assert_eq!(app.build_command(), "tool deploy --force staging");
}

#[test]
fn test_global_flag_set_everywhere() {
    let mut app = App::new(flags_spec());
    app.navigate_to_command(&path(&["deploy"]));
    app.set_focus(Focus::Flags);
    app.set_flag_index(1);
    app.handle_key(key(KeyCode::Char(' ')));
    // The global flag shows at the root of the built command.
    assert_eq!(app.build_command(), "tool --verbose deploy staging");
}

#[test]
fn test_ctrl_r_executes_from_anywhere() {
    let mut app = App::new(defaults_spec());
    let ctrl_r = KeyPress { code: KeyCode::Char('r'), control: true };
    assert_eq!(app.handle_key(ctrl_r), Action::Execute);
}

#[test]
fn test_q_quits_and_enter_runs_on_preview() {
    let mut app = App::new(defaults_spec());
    app.set_focus(Focus::Preview);
    assert_eq!(app.focus(), Focus::Preview);
    assert_eq!(app.handle_key(key(KeyCode::Enter)), Action::Execute);
    assert_eq!(app.handle_key(key(KeyCode::Char('q'))), Action::Quit);
}

#[test]
fn test_tab_then_backtab_returns_focus() {
    let mut app = App::new(defaults_spec());
    let start = app.focus();
    app.handle_key(key(KeyCode::Tab));
    assert_ne!(app.focus(), start);
    app.handle_key(key(KeyCode::BackTab));
    assert_eq!(app.focus(), start);
}

#[test]
fn test_bracket_keys_cycle_themes() {
    let mut app = App::new(defaults_spec());
    app.set_focus(Focus::Preview);
    app.handle_key(key(KeyCode::Char(']')));
    assert_eq!(app.theme_name, Theme { index: 1 });
    app.handle_key(key(KeyCode::Char('[')));
    app.handle_key(key(KeyCode::Char('[')));
    assert_eq!(app.theme_name, Theme { index: tuisage::theme_picker::THEME_COUNT - 1 });
}

#[test]
fn test_theme_picker_escape_restores_theme() {
    let mut app = App::new(defaults_spec());
    app.set_focus(Focus::Preview);
    app.handle_key(key(KeyCode::Char('T')));
    assert!(app.is_theme_picking());
    assert_eq!(app.help_context(), HelpContext::ThemePicking);
    app.handle_key(key(KeyCode::Down));
    assert_eq!(app.theme_name, Theme { index: 1 });
    app.handle_key(key(KeyCode::Esc));
    assert!(!app.is_theme_picking());
    assert_eq!(app.theme_name, Theme { index: 0 });
}

#[test]
fn test_execution_keys_close_after_exit() {
    let mut app = App::new(defaults_spec());
    app.start_execution();
    assert_eq!(app.handle_key(key(KeyCode::Char('q'))), Action::Idle);
    assert!(app.is_executing());
    assert_eq!(app.handle_execution_key(false, key(KeyCode::Char('a'))), Some(vec![b'a']));
    assert!(app.is_executing());
    assert_eq!(app.handle_execution_key(true, key(KeyCode::Char('x'))), None);
    assert!(app.is_executing());
    assert_eq!(app.handle_execution_key(true, key(KeyCode::Esc)), None);
    assert!(!app.is_executing());
}

#[test]
fn test_click_on_preview_accepts_once_focused() {
    let mut app = App::new(defaults_spec());
    app.layout.register(Rect::new(0, 20, 80, 3), Focus::Preview);
    let click = MouseInput { kind: MouseKind::LeftDown, column: 5, row: 21 };
    assert_eq!(app.handle_mouse(click), Action::Idle);
    assert_eq!(app.focus(), Focus::Preview);
    assert_eq!(app.handle_mouse(click), Action::Accept);
    assert_eq!(app.mouse_position, Some((5, 21)));
}

#[test]
fn test_editing_arg_then_finish_applies_value() {
    let mut app = App::new(defaults_spec());
    app.navigate_to_command(&path(&["deploy"]));
    app.set_focus(Focus::Args);
    app.start_editing();
    assert!(app.is_editing());
    assert_eq!(app.help_context(), HelpContext::Editing);
    assert_eq!(app.build_command(), "defaults deploy staging");
    app.arg_panel.inner.base.edit_input.insert_char('!');
    assert_eq!(app.build_command(), "defaults deploy staging!");
    app.finish_editing();
    assert!(!app.is_editing());
    assert_eq!(app.arg_values[0].value, "staging!");
}

fn commands_spec() -> CliSpec {
    CliSpec {
        name: "Cmds".to_string(),
        bin: "cmds".to_string(),
        cmd: command(
            "cmds",
            Vec::new(),
            Vec::new(),
            vec![
                command("init", Vec::new(), Vec::new(), Vec::new()),
                command("deploy", vec![bool_flag("force", false)], Vec::new(), Vec::new()),
                command("destroy", Vec::new(), Vec::new(), Vec::new()),
            ],
        ),
    }
}

#[test]
fn test_filter_keeps_all_items_and_moves_to_match() {
    let mut app = App::new(commands_spec());
    assert_eq!(app.total_visible_commands(), 3);
    app.handle_key(key(KeyCode::Char('/')));
    assert!(app.is_filtering());
    assert_eq!(app.help_context(), HelpContext::Filtering);
    app.handle_key(key(KeyCode::Char('d')));
    app.handle_key(key(KeyCode::Char('p')));
    app.handle_key(key(KeyCode::Char('l')));
    // Every command stays listed; the selection moved to the match.
    assert_eq!(app.total_visible_commands(), 3);
    assert_eq!(app.command_path, vec!["deploy".to_string()]);
    assert_eq!(app.filter(), "dpl");
    app.handle_key(key(KeyCode::Enter));
    assert!(!app.is_filtering());
    assert!(app.filter_active());
    assert_eq!(app.help_context(), HelpContext::FilterApplied);
}

#[test]
fn test_tab_out_of_filter_clears_it_and_moves_focus() {
    let mut app = App::new(commands_spec());
    app.handle_key(key(KeyCode::Char('/')));
    app.handle_key(key(KeyCode::Char('i')));
    assert_eq!(app.focus(), Focus::Commands);
    app.handle_key(key(KeyCode::Tab));
    assert!(!app.is_filtering());
    assert!(!app.filter_active());
    assert_ne!(app.focus(), Focus::Commands);
}

#[test]
fn test_set_focus_clears_applied_filter_of_panel_left() {
    let mut app = App::new(commands_spec());
    app.handle_key(key(KeyCode::Char('/')));
    app.handle_key(key(KeyCode::Char('d')));
    app.handle_key(key(KeyCode::Enter));
    assert!(app.filter_active());
    app.set_focus(Focus::Preview);
    assert!(!app.filter_active());
}

#[test]
fn test_compute_match_scores_follow_focused_filter() {
    let mut app = App::new(commands_spec());
    app.navigate_to_command(&path(&["deploy"]));
    app.set_focus(Focus::Flags);
    assert!(app.compute_flag_match_scores().entries.is_empty());
    app.handle_key(key(KeyCode::Char('/')));
    app.handle_key(key(KeyCode::Char('f')));
    let scores = app.compute_flag_match_scores();
    assert!(scores.get("force").unwrap().name_score > 0);
    assert!(app.compute_arg_match_scores().entries.is_empty());
}

#[test]
fn test_visible_args_skip_hidden() {
    let mut hidden = arg("secret", None);
    hidden.hide = true;
    let spec = CliSpec {
        name: "h".to_string(),
        bin: "h".to_string(),
        cmd: command("h", Vec::new(), vec![arg("first", None), hidden, arg("last", Some("x"))], Vec::new()),
    };
    let app = App::new(spec);
    let names: Vec<&str> = app.visible_args().iter().map(|a| a.name.as_str()).collect();
    assert_eq!(names, vec!["first", "last"]);
    assert_eq!(app.arg_values.len(), 2);
    assert_eq!(app.build_command(), "h x");
}

#[test]
fn test_scroll_wheel_moves_focused_command_list() {
    let mut app = App::new(commands_spec());
    app.layout.register(Rect::new(0, 3, 30, 10), Focus::Commands);
    assert_eq!(app.command_path, vec!["init".to_string()]);
    let down = MouseInput { kind: MouseKind::ScrollDown, column: 2, row: 5 };
    assert_eq!(app.handle_mouse(down), Action::Idle);
    assert_eq!(app.command_index(), 1);
    assert_eq!(app.command_path, vec!["deploy".to_string()]);
    let up = MouseInput { kind: MouseKind::ScrollUp, column: 2, row: 5 };
    assert_eq!(app.handle_mouse(up), Action::Idle);
    assert_eq!(app.command_path, vec!["init".to_string()]);
}

#[test]
fn test_click_outside_every_region_changes_nothing() {
    let mut app = App::new(commands_spec());
    app.layout.register(Rect::new(0, 3, 30, 10), Focus::Commands);
    let click = MouseInput { kind: MouseKind::LeftDown, column: 70, row: 30 };
    assert_eq!(app.handle_mouse(click), Action::Idle);
    assert_eq!(app.focus(), Focus::Commands);
    assert_eq!(app.command_path, vec!["init".to_string()]);
    assert_eq!(app.mouse_position, Some((70, 30)));
}

#[test]
fn test_click_on_command_row_selects_it() {
    let mut app = App::new(commands_spec());
    app.layout.register(Rect::new(0, 3, 30, 10), Focus::Commands);
    // The first item row is just below the panel's top border.
    let click = MouseInput { kind: MouseKind::LeftDown, column: 3, row: 6 };
    assert_eq!(app.handle_mouse(click), Action::Idle);
    assert_eq!(app.focus(), Focus::Commands);
    assert_eq!(app.command_path, vec!["destroy".to_string()]);
}

#[test]
fn test_click_on_other_panel_applies_edit_and_moves_focus() {
    let mut app = App::new(flags_spec());
    app.navigate_to_command(&path(&["deploy"]));
    app.layout.register(Rect::new(0, 3, 30, 10), Focus::Commands);
    app.layout.register(Rect::new(30, 3, 50, 10), Focus::Args);
    app.set_focus(Focus::Args);
    app.start_editing();
    app.arg_panel.inner.base.edit_input.insert_char('2');
    // A click outside every region changes nothing.
    let outside = MouseInput { kind: MouseKind::LeftDown, column: 90, row: 30 };
    app.handle_mouse(outside);
    assert!(app.is_editing());
    // A click in the command list leaves the argument panel: its edit is applied.
    let click = MouseInput { kind: MouseKind::LeftDown, column: 3, row: 4 };
    assert_eq!(app.handle_mouse(click), Action::Idle);
    assert_eq!(app.focus(), Focus::Commands);
    assert!(!app.is_editing());
    assert_eq!(app.command_path, vec!["deploy".to_string()]);
    assert_eq!(app.arg_values[0].value, "staging2");
}

#[test]
fn test_ensure_visible_scrolls_to_selection() {
    let mut app = App::new(commands_spec());
    app.navigate_to_command(&path(&["destroy"]));
    assert_eq!(app.command_index(), 2);
    app.ensure_visible(Focus::Commands, 2);
    assert_eq!(app.command_scroll(), 1);
    app.ensure_visible(Focus::Commands, 0);
    assert_eq!(app.command_scroll(), 1);
}

#[test]
fn test_navigate_into_selected_opens_first_child() {
    let spec = CliSpec {
        name: "n".to_string(),
        bin: "n".to_string(),
        cmd: command(
            "n",
            Vec::new(),
            Vec::new(),
            vec![command(
                "config",
                Vec::new(),
                Vec::new(),
                vec![command("get", Vec::new(), Vec::new(), Vec::new()), command("set", Vec::new(), Vec::new(), Vec::new())],
            )],
        ),
    };
    let mut app = App::new(spec);
    assert_eq!(app.command_path, vec!["config".to_string()]);
    app.navigate_into_selected();
    assert_eq!(app.command_path, vec!["config".to_string(), "get".to_string()]);
    app.set_command_index(2);
    assert_eq!(app.command_path, vec!["config".to_string(), "set".to_string()]);
}

#[test]
fn test_mouse_scroll_moves_selection_under_cursor() {
    let mut app = App::new(flags_spec());
    app.navigate_to_command(&path(&["deploy"]));
    app.layout.register(Rect::new(0, 3, 30, 10), Focus::Commands);
    app.layout.register(Rect::new(30, 3, 50, 10), Focus::Flags);
    assert_eq!(app.focus(), Focus::Commands);
    assert_eq!(app.flag_index(), 0);
    // The wheel over the flag list moves its selection, not the focused command list's.
    let down = MouseInput { kind: MouseKind::ScrollDown, column: 40, row: 6 };
    assert_eq!(app.handle_mouse(down), Action::Idle);
    assert_eq!(app.flag_index(), 1);
    assert_eq!(app.focus(), Focus::Commands);
    assert_eq!(app.command_path, vec!["deploy".to_string()]);
    // Outside every region the wheel goes to the focused command list, whose
    // only command stays selected; the flag list keeps its selection.
    let away = MouseInput { kind: MouseKind::ScrollUp, column: 90, row: 30 };
    assert_eq!(app.handle_mouse(away), Action::Idle);
    assert_eq!(app.flag_index(), 1);
    assert_eq!(app.command_path, vec!["deploy".to_string()]);
}

#[test]
fn test_global_flag_from_deepest_level() {
    let mut app = App::new(flags_spec());
    app.navigate_to_command(&path(&["deploy"]));
    assert_eq!(app.build_command(), "tool deploy staging");
    // Set the global flag only on the deploy level: the deepest value wins and
    // it is emitted right after the program name.
    for (key, settings) in app.flag_values.levels.iter_mut() {
        if key == "deploy" {
            for (name, value) in settings.iter_mut() {
                if name == "verbose" {
                    *value = FlagValue::Bool(true);
                }
            }
        }
    }
    assert_eq!(app.build_command(), "tool --verbose deploy staging");
    assert_eq!(app.build_command_parts(), vec!["tool", "--verbose", "deploy", "staging"]);
}
