//! The builder on a sample CLI written as a `CliSpec`: `mycli` with global
//! `-v/--verbose` (count) and `-q/--quiet`, and the commands init, config
//! (set, get, list, remove), run, deploy, plugin (install, uninstall, list,
//! update; install and update complete their `name` argument from a command)
//! and the leaf commands version and help. A completion command's output is
//! given as the text it would print.

use tuisage::app::App;
use tuisage::command_tree::{compute_tree_scores, flatten_command_tree};
use tuisage::events::{Action, Focus, KeyCode, KeyPress, MouseInput, MouseKind};
use tuisage::geometry::{Rect, UiLayout};
use tuisage::events::AppMode;
use tuisage::theme_picker::Theme;
use tuisage::spec_model::{ArgSpec, CliSpec, CommandSpec, FlagArgSpec, FlagSpec};
use tuisage::values::FlagValue;
use tuisage::completion::completions_from_output;
use tuisage::spec_model::CompleteSpec;

fn cmd(name: &str, help: &str, flags: Vec<FlagSpec>, args: Vec<ArgSpec>, subcommands: Vec<CommandSpec>) -> CommandSpec {
    CommandSpec {
        name: name.to_string(),
        help: Some(help.to_string()),
        aliases: Vec::new(),
        hidden_aliases: Vec::new(),
        hide: false,
        flags,
        args,
        subcommands,
        complete: Vec::new(),
    }
}

fn flag(name: &str, short: Option<char>, global: bool) -> FlagSpec {
    FlagSpec {
        name: name.to_string(),
        help: None,
        short: short.into_iter().collect(),
        long: vec![name.to_string()],
        required: false,
        hide: false,
        global,
        count: false,
        arg: None,
        default: Vec::new(),
        negate: None,
    }
}

fn value_flag(name: &str, arg: &str, choices: Option<Vec<&str>>, default: Option<&str>) -> FlagSpec {
    let mut f = flag(name, None, false);
    f.arg = Some(FlagArgSpec {
        name: arg.to_string(),
        choices: choices.map(|cs| cs.iter().map(|c| c.to_string()).collect()),
    });
    f.default = default.iter().map(|d| d.to_string()).collect();
    f
}

fn arg(name: &str, required: bool, choices: Option<Vec<&str>>) -> ArgSpec {
    ArgSpec {
        name: name.to_string(),
        help: None,
        required,
        hide: false,
        choices: choices.map(|cs| cs.iter().map(|c| c.to_string()).collect()),
        default: Vec::new(),
    }
}

/// `c` with a completion command for its `name` argument.
fn completing(mut c: CommandSpec, descriptions: bool) -> CommandSpec {
    let run = if descriptions { "mycli plugin list --describe" } else { "mycli plugin list" };
    c.complete.push(CompleteSpec { name: "name".to_string(), run: Some(run.to_string()), descriptions });
    c
}

fn sample_spec() -> CliSpec {
    let mut verbose = flag("verbose", Some('v'), true);
    verbose.count = true;
    let quiet = flag("quiet", Some('q'), true);
    let mut color = flag("color", None, false);
    let mut docker_tag = value_flag("tag", "TAG", None, None);
    docker_tag.help = Some("Docker image tag".to_string());
    color.negate = Some("--no-color".to_string());
    CliSpec {
        name: "My CLI".to_string(),
        bin: "mycli".to_string(),
        cmd: cmd(
            "mycli",
            "My CLI",
            vec![verbose, quiet],
            Vec::new(),
            vec![
                cmd(
                    "init",
                    "Initialize a new project",
                    vec![flag("force", Some('f'), false), value_flag("template", "TEMPLATE", Some(vec!["basic", "full", "minimal"]), None)],
                    vec![arg("name", true, None)],
                    Vec::new(),
                ),
                cmd(
                    "config",
                    "Manage configuration",
                    Vec::new(),
                    Vec::new(),
                    vec![
                        cmd("set", "Set a value", Vec::new(), vec![arg("key", true, None), arg("value", true, None)], Vec::new()),
                        cmd("get", "Get a value", Vec::new(), vec![arg("key", true, None)], Vec::new()),
                        cmd("list", "List values", Vec::new(), Vec::new(), Vec::new()),
                        cmd("remove", "Remove a value", Vec::new(), vec![arg("key", true, None)], Vec::new()),
                    ],
                ),
                cmd(
                    "run",
                    "Run a task",
                    vec![color, value_flag("jobs", "N", None, Some("4"))],
                    vec![arg("task", true, None), arg("args", false, None)],
                    Vec::new(),
                ),
                cmd(
                    "deploy",
                    "Deploy the application",
                    vec![docker_tag, flag("rollback", None, false), flag("skip-tests", None, false), flag("yes", Some('y'), false)],
                    vec![arg("environment", true, Some(vec!["dev", "staging", "prod"]))],
                    Vec::new(),
                ),
                cmd(
                    "plugin",
                    "Manage plugins",
                    Vec::new(),
                    Vec::new(),
                    vec![
                        completing(cmd("install", "Install a plugin", Vec::new(), vec![arg("name", true, None)], Vec::new()), false),
                        cmd("uninstall", "Remove a plugin", Vec::new(), vec![arg("name", true, None)], Vec::new()),
                        cmd("list", "List plugins", Vec::new(), Vec::new(), Vec::new()),
                        completing(cmd("update", "Update a plugin", Vec::new(), vec![arg("name", false, None)], Vec::new()), true),
                    ],
                ),
                cmd("version", "Show the version", Vec::new(), Vec::new(), Vec::new()),
                cmd("help", "Show help", Vec::new(), Vec::new(), Vec::new()),
            ],
        ),
    }
}

fn path(names: &[&str]) -> Vec<String> {
    names.iter().map(|s| s.to_string()).collect()
}

fn key(code: KeyCode) -> KeyPress {
    KeyPress::new(code)
}

/// Give the setting `name` stored under `level` the value `value`.
fn set_flag(app: &mut App, level: &str, name: &str, value: FlagValue) {
    for (key, settings) in app.flag_values.levels.iter_mut() {
        if key == level {
            for (n, v) in settings.iter_mut() {
                if n == name {
                    *v = value.clone();
                }
            }
        }
    }
}

fn flag_value(app: &App, name: &str) -> Option<FlagValue> {
    app.current_flag_values().into_iter().find(|(n, _)| n == name).map(|(_, v)| v)
}

#[test]
fn test_app_creation() {
    let app = App::new(sample_spec());
    assert_eq!(app.spec.bin, "mycli");
    assert_eq!(app.spec.name, "My CLI");
    assert_eq!(app.command_path, vec!["init"]);
    assert_eq!(app.focus(), Focus::Commands);
}

#[test]
fn test_tree_built_from_spec() {
    let app = App::new(sample_spec());
    let nodes = &app.command_panel.inner.tree_nodes;
    assert!(nodes.len() > 1);
    let names: Vec<&str> = nodes.iter().map(|n| n.data.name.as_str()).collect();
    assert!(names.contains(&"init"));
    assert!(names.contains(&"config"));
    assert!(names.contains(&"run"));
}

#[test]
fn test_flat_list_all_visible() {
    let app = App::new(sample_spec());
    let flat = flatten_command_tree(&app.command_panel.inner.tree_nodes);
    assert_eq!(flat.len(), 15);
    assert!(flat.iter().any(|c| c.id == "config set"));
    assert!(flat.iter().any(|c| c.id == "plugin install"));
}

#[test]
fn test_navigate_to_deep_command() {
    let mut app = App::new(sample_spec());
    app.navigate_to_command(&path(&["config", "set"]));
    assert_eq!(app.command_path, vec!["config", "set"]);
}

#[test]
fn test_navigate_into_subcommand() {
    let mut app = App::new(sample_spec());
    app.navigate_to_command(&path(&["config"]));
    assert_eq!(app.command_path, vec!["config"]);
    app.navigate_into_selected();
    assert!(app.command_path.len() == 2 && app.command_path[0] == "config");
}

#[test]
fn test_build_command_basic() {
    let app = App::new(sample_spec());
    assert_eq!(app.build_command(), "mycli init");
}

#[test]
fn test_build_command_with_subcommand() {
    let mut app = App::new(sample_spec());
    app.navigate_to_command(&path(&["init"]));
    assert!(app.build_command().starts_with("mycli init"));
}

#[test]
fn test_build_command_with_flags_and_args() {
    let mut app = App::new(sample_spec());
    app.navigate_to_command(&path(&["init"]));
    app.arg_values[0].value = "myproject".to_string();
    set_flag(&mut app, "init", "force", FlagValue::Bool(true));
    let cmd = app.build_command();
    assert!(cmd.contains("mycli"));
    assert!(cmd.contains("init"));
    assert!(cmd.contains("--force"));
    assert!(cmd.contains("myproject"));
}

#[test]
fn test_build_command_with_count_flag() {
    let mut app = App::new(sample_spec());
    set_flag(&mut app, "", "verbose", FlagValue::Count(3));
    app.sync_global_flag("verbose", &FlagValue::Count(3));
    assert!(app.build_command().contains("-vvv"));
}

#[test]
fn test_negated_flag_init_as_negbool_none() {
    let mut app = App::new(sample_spec());
    app.navigate_to_command(&path(&["run"]));
    assert_eq!(flag_value(&app, "color"), Some(FlagValue::NegBool(None)));
}

#[test]
fn test_negated_flag_omitted_emits_nothing() {
    let mut app = App::new(sample_spec());
    app.navigate_to_command(&path(&["run"]));
    let cmd = app.build_command();
    assert!(!cmd.contains("--color"));
    assert!(!cmd.contains("--no-color"));
}

#[test]
fn test_negated_flag_explicit_on_emits_flag() {
    let mut app = App::new(sample_spec());
    app.navigate_to_command(&path(&["run"]));
    set_flag(&mut app, "run", "color", FlagValue::NegBool(Some(true)));
    assert!(app.build_command().contains("--color"));
}

#[test]
fn test_negated_flag_explicit_off_emits_negate() {
    let mut app = App::new(sample_spec());
    app.navigate_to_command(&path(&["run"]));
    set_flag(&mut app, "run", "color", FlagValue::NegBool(Some(false)));
    let cmd = app.build_command();
    assert!(cmd.contains("--no-color"));
    assert!(!cmd.replace("--no-color", "").contains("--color"));
}

#[test]
fn test_negated_flag_toggle_cycles() {
    let mut app = App::new(sample_spec());
    app.navigate_to_command(&path(&["run"]));
    app.set_focus(Focus::Flags);
    let color_idx = app.current_flag_values().iter().position(|(n, _)| n == "color").unwrap();
    app.flag_panel.inner.select(color_idx);
    assert_eq!(app.current_flag_values()[color_idx].1, FlagValue::NegBool(None));
    app.handle_key(key(KeyCode::Enter));
    assert_eq!(app.current_flag_values()[color_idx].1, FlagValue::NegBool(Some(true)));
    app.handle_key(key(KeyCode::Enter));
    assert_eq!(app.current_flag_values()[color_idx].1, FlagValue::NegBool(Some(false)));
    app.handle_key(key(KeyCode::Enter));
    assert_eq!(app.current_flag_values()[color_idx].1, FlagValue::NegBool(None));
}

#[test]
fn test_negated_flag_backspace_resets() {
    let mut app = App::new(sample_spec());
    app.navigate_to_command(&path(&["run"]));
    app.set_focus(Focus::Flags);
    let color_idx = app.current_flag_values().iter().position(|(n, _)| n == "color").unwrap();
    app.flag_panel.inner.select(color_idx);
    app.handle_key(key(KeyCode::Enter));
    assert_eq!(app.current_flag_values()[color_idx].1, FlagValue::NegBool(Some(true)));
    app.handle_key(key(KeyCode::Backspace));
    assert_eq!(app.current_flag_values()[color_idx].1, FlagValue::NegBool(None));
}

#[test]
fn test_full_path_matching() {
    let app = App::new(sample_spec());
    let scores = compute_tree_scores(&app.command_panel.inner.tree_nodes, "cfgset");
    assert!(scores.get("config set").map(|s| s.overall()).unwrap_or(0) > 0);
    assert_eq!(scores.get("init").map(|s| s.overall()).unwrap_or(0), 0);
    assert_eq!(scores.get("run").map(|s| s.overall()).unwrap_or(0), 0);
    let scores2 = compute_tree_scores(&app.command_panel.inner.tree_nodes, "plinstall");
    assert!(scores2.get("plugin install").map(|s| s.overall()).unwrap_or(0) > 0);
}

#[test]
fn test_command_path_navigation() {
    let mut app = App::new(sample_spec());
    assert_eq!(app.command_path, vec!["init"]);
    app.navigate_to_command(&path(&["config"]));
    assert_eq!(app.command_path, vec!["config"]);
    app.navigate_to_command(&path(&["config", "set"]));
    assert_eq!(app.command_path, vec!["config", "set"]);
}

#[test]
fn test_visible_flags_includes_global() {
    let app = App::new(sample_spec());
    let names: Vec<String> = app.visible_flags().iter().map(|f| f.name.clone()).collect();
    assert!(names.contains(&"verbose".to_string()));
    assert!(names.contains(&"quiet".to_string()));
}

#[test]
fn test_arg_values_initialized() {
    let mut app = App::new(sample_spec());
    app.navigate_to_command(&path(&["init"]));
    assert!(!app.arg_values.is_empty());
    assert_eq!(app.arg_values[0].name, "name");
    assert!(app.arg_values[0].required);
}

#[test]
fn test_deploy_has_choices() {
    let mut app = App::new(sample_spec());
    app.navigate_to_command(&path(&["deploy"]));
    assert_eq!(app.arg_values[0].name, "environment");
    assert!(app.arg_values[0].choices.contains(&"dev".to_string()));
    assert!(app.arg_values[0].choices.contains(&"staging".to_string()));
    assert!(app.arg_values[0].choices.contains(&"prod".to_string()));
}

#[test]
fn test_arg_values_persist_per_command_path() {
    let mut app = App::new(sample_spec());
    app.navigate_to_command(&path(&["deploy"]));
    app.arg_values[0].value = "prod".to_string();
    app.navigate_to_command(&path(&["init"]));
    app.arg_values[0].value = "demo-app".to_string();
    app.navigate_to_command(&path(&["deploy"]));
    assert_eq!(app.arg_values[0].value, "prod");
    app.navigate_to_command(&path(&["init"]));
    assert_eq!(app.arg_values[0].value, "demo-app");
}

#[test]
fn test_flag_with_default_value() {
    let mut app = App::new(sample_spec());
    app.navigate_to_command(&path(&["run"]));
    assert_eq!(flag_value(&app, "jobs"), Some(FlagValue::String("4".to_string())));
}

#[test]
fn test_key_handling_quit() {
    let mut app = App::new(sample_spec());
    assert_eq!(app.handle_key(key(KeyCode::Char('q'))), Action::Quit);
}

#[test]
fn test_key_handling_navigation() {
    let mut app = App::new(sample_spec());
    app.handle_key(key(KeyCode::Down));
    assert!(app.command_index() > 0);
    app.handle_key(key(KeyCode::Up));
    assert_eq!(app.command_index(), 0);
}

#[test]
fn test_tab_cycles_focus() {
    let mut app = App::new(sample_spec());
    assert_eq!(app.focus(), Focus::Commands);
    app.handle_key(key(KeyCode::Tab));
    assert_eq!(app.focus(), Focus::Flags);
    app.handle_key(key(KeyCode::Tab));
    assert_ne!(app.focus(), Focus::Commands);
}

#[test]
fn test_filter_mode() {
    let mut app = App::new(sample_spec());
    app.set_focus(Focus::Commands);
    app.handle_key(key(KeyCode::Char('/')));
    assert!(app.is_filtering());
    for c in "cfg".chars() {
        app.handle_key(key(KeyCode::Char(c)));
    }
    assert_eq!(app.filter(), "cfg");
    assert!(app.is_filtering());
}

#[test]
fn test_build_command_parts_splits_bin_with_spaces() {
    let mut spec = sample_spec();
    spec.bin = "mise run".to_string();
    let app = App::new(spec);
    let parts = app.build_command_parts();
    assert_eq!(parts[0], "mise");
    assert_eq!(parts[1], "run");
}

#[test]
fn test_build_command_parts_arg_not_quoted() {
    let mut app = App::new(sample_spec());
    app.navigate_to_command(&path(&["deploy"]));
    app.arg_values[0].value = "hello world".to_string();
    let parts = app.build_command_parts();
    assert!(parts.contains(&"hello world".to_string()));
    assert!(!parts.iter().any(|p| p.contains('"')));
}

#[test]
fn test_build_command_parts_count_flag() {
    let mut app = App::new(sample_spec());
    set_flag(&mut app, "", "verbose", FlagValue::Count(3));
    let parts = app.build_command_parts();
    assert!(parts.contains(&"-vvv".to_string()));
}

#[test]
fn test_flatten_command_tree_ids() {
    let app = App::new(sample_spec());
    let flat = flatten_command_tree(&app.command_panel.inner.tree_nodes);
    assert_eq!(flat.len(), 15);
    let ids: Vec<&str> = flat.iter().map(|c| c.id.as_str()).collect();
    assert_eq!(
        ids,
        vec![
            "init", "config", "config set", "config get", "config list", "config remove", "run", "deploy", "plugin",
            "plugin install", "plugin uninstall", "plugin list", "plugin update", "version", "help",
        ]
    );
}

#[test]
fn test_flatten_command_tree_full_path() {
    let app = App::new(sample_spec());
    let flat = flatten_command_tree(&app.command_panel.inner.tree_nodes);
    assert_eq!(flat[0].full_path, "init");
    assert_eq!(flat[1].full_path, "config");
    assert_eq!(flat[2].full_path, "config set");
    assert_eq!(flat[9].full_path, "plugin install");
}

#[test]
fn test_count_flag_decrement_via_backspace() {
    let mut app = App::new(sample_spec());
    app.set_focus(Focus::Flags);
    let fidx = app.current_flag_values().iter().position(|(n, _)| n == "verbose").unwrap();
    app.set_flag_index(fidx);
    for _ in 0..3 {
        app.handle_key(key(KeyCode::Char(' ')));
    }
    assert_eq!(app.current_flag_values()[fidx].1, FlagValue::Count(3));
    app.handle_key(key(KeyCode::Backspace));
    assert_eq!(app.current_flag_values()[fidx].1, FlagValue::Count(2));
    app.handle_key(key(KeyCode::Backspace));
    app.handle_key(key(KeyCode::Backspace));
    assert_eq!(app.current_flag_values()[fidx].1, FlagValue::Count(0));
    app.handle_key(key(KeyCode::Backspace));
    assert_eq!(app.current_flag_values()[fidx].1, FlagValue::Count(0));
}

#[test]
fn test_mouse_scroll_moves_selection() {
    let mut app = App::new(sample_spec());
    app.set_focus(Focus::Commands);
    let mouse = MouseInput { kind: MouseKind::ScrollDown, column: 10, row: 5 };
    app.handle_mouse(mouse);
    assert_eq!(app.command_index(), 1);
    app.handle_mouse(mouse);
    assert_eq!(app.command_index(), 2);
    let mouse_up = MouseInput { kind: MouseKind::ScrollUp, column: 10, row: 5 };
    app.handle_mouse(mouse_up);
    assert_eq!(app.command_index(), 1);
}

#[test]
fn test_global_flag_sync_from_subcommand() {
    let mut app = App::new(sample_spec());
    app.navigate_to_command(&path(&["deploy"]));
    app.set_focus(Focus::Flags);
    let verbose_idx = app.visible_flags().iter().position(|f| f.name == "verbose").unwrap();
    app.set_flag_index(verbose_idx);
    app.handle_key(key(KeyCode::Char(' ')));
    assert_eq!(flag_value(&app, "verbose"), Some(FlagValue::Count(1)));
    let root = app.flag_values.get("").unwrap();
    let root_verbose = root.iter().find(|(n, _)| n == "verbose").map(|(_, v)| v.clone());
    assert_eq!(root_verbose, Some(FlagValue::Count(1)));
    assert!(app.build_command().contains("-v"));
}

#[test]
fn test_global_flag_sync_across_multiple_levels() {
    let mut app = App::new(sample_spec());
    app.navigate_to_command(&path(&["init"]));
    app.set_focus(Focus::Flags);
    let verbose_idx = app.visible_flags().iter().position(|f| f.name == "verbose").unwrap();
    app.set_flag_index(verbose_idx);
    app.handle_key(key(KeyCode::Char(' ')));
    app.handle_key(key(KeyCode::Char(' ')));
    app.handle_key(key(KeyCode::Char(' ')));
    app.navigate_to_command(&path(&["deploy"]));
    assert_eq!(flag_value(&app, "verbose"), Some(FlagValue::Count(3)));
    assert!(app.build_command().contains("-vvv"));
}

#[test]
fn test_global_flag_set_only_below_root_is_emitted() {
    let mut app = App::new(sample_spec());
    app.navigate_to_command(&path(&["deploy"]));
    set_flag(&mut app, "deploy", "verbose", FlagValue::Count(2));
    assert_eq!(app.build_command(), "mycli -vv deploy");
}

#[test]
fn test_parts_joined_read_as_displayed_command() {
    let mut app = App::new(sample_spec());
    set_flag(&mut app, "", "verbose", FlagValue::Count(2));
    app.sync_global_flag("verbose", &FlagValue::Count(2));
    app.navigate_to_command(&path(&["deploy"]));
    set_flag(&mut app, "deploy", "tag", FlagValue::String("v1".to_string()));
    set_flag(&mut app, "deploy", "rollback", FlagValue::Bool(true));
    app.arg_values[0].value = "prod".to_string();
    let parts = app.build_command_parts();
    assert_eq!(parts.join(" "), app.build_command());
    assert_eq!(parts.join(" "), "mycli -vv deploy --tag v1 --rollback prod");
}

fn press(app: &mut App, code: KeyCode) -> Action {
    app.handle_key(key(code))
}

fn type_text(app: &mut App, text: &str) {
    for c in text.chars() {
        app.handle_key(key(KeyCode::Char(c)));
    }
}

fn flag_position(app: &App, name: &str) -> usize {
    app.current_flag_values().iter().position(|(n, _)| n == name).unwrap()
}

fn left_click(column: u16, row: u16) -> MouseInput {
    MouseInput { kind: MouseKind::LeftDown, column, row }
}

#[test]
fn test_flat_list_total_commands() {
    let app = App::new(sample_spec());
    assert_eq!(app.total_visible_commands(), 15);
}

#[test]
fn test_right_moves_to_first_child() {
    let mut app = App::new(sample_spec());
    app.navigate_to_command(&path(&["config"]));
    app.set_focus(Focus::Commands);
    press(&mut app, KeyCode::Right);
    assert_eq!(app.command_path, vec!["config", "set"]);
}

#[test]
fn test_left_moves_to_parent() {
    let mut app = App::new(sample_spec());
    app.navigate_to_command(&path(&["config", "set"]));
    assert_eq!(app.command_path, vec!["config", "set"]);
    app.set_focus(Focus::Commands);
    press(&mut app, KeyCode::Left);
    assert_eq!(app.command_path, vec!["config"]);
}

#[test]
fn test_left_on_top_level_does_nothing() {
    let mut app = App::new(sample_spec());
    app.navigate_to_command(&path(&["config"]));
    app.set_focus(Focus::Commands);
    press(&mut app, KeyCode::Left);
    assert_eq!(app.command_path, vec!["config"]);
}

#[test]
fn test_tree_selected_command_determines_flags() {
    let mut app = App::new(sample_spec());
    let root_flags: Vec<String> = app.visible_flags().iter().map(|f| f.name.clone()).collect();
    assert!(root_flags.contains(&"verbose".to_string()));
    app.navigate_to_command(&path(&["deploy"]));
    let deploy_flags: Vec<String> = app.visible_flags().iter().map(|f| f.name.clone()).collect();
    assert!(deploy_flags.contains(&"tag".to_string()));
    assert!(deploy_flags.contains(&"rollback".to_string()));
}

#[test]
fn test_backspace_clears_bool_flag() {
    let mut app = App::new(sample_spec());
    app.set_focus(Focus::Flags);
    let fidx = flag_position(&app, "quiet");
    app.set_flag_index(fidx);
    press(&mut app, KeyCode::Char(' '));
    assert_eq!(app.current_flag_values()[fidx].1, FlagValue::Bool(true));
    press(&mut app, KeyCode::Backspace);
    assert_eq!(app.current_flag_values()[fidx].1, FlagValue::Bool(false));
}

#[test]
fn test_backspace_clears_string_flag() {
    let mut app = App::new(sample_spec());
    app.navigate_to_command(&path(&["deploy"]));
    app.set_focus(Focus::Flags);
    let fidx = flag_position(&app, "tag");
    app.set_flag_index(fidx);
    app.start_editing();
    type_text(&mut app, "v1");
    app.finish_editing();
    assert_eq!(app.current_flag_values()[fidx].1, FlagValue::String("v1".to_string()));
    press(&mut app, KeyCode::Backspace);
    assert_eq!(app.current_flag_values()[fidx].1, FlagValue::String(String::new()));
}

#[test]
fn test_backspace_clears_arg_value() {
    let mut app = App::new(sample_spec());
    app.navigate_to_command(&path(&["run"]));
    app.set_focus(Focus::Args);
    app.set_arg_index(0);
    app.start_editing();
    type_text(&mut app, "test");
    app.finish_editing();
    assert_eq!(app.arg_values[0].value, "test");
    press(&mut app, KeyCode::Backspace);
    assert_eq!(app.arg_values[0].value, "");
}

#[test]
fn test_backspace_decrements_count_flag() {
    let mut app = App::new(sample_spec());
    app.set_focus(Focus::Flags);
    let fidx = flag_position(&app, "verbose");
    app.set_flag_index(fidx);
    press(&mut app, KeyCode::Char(' '));
    press(&mut app, KeyCode::Char(' '));
    press(&mut app, KeyCode::Char(' '));
    assert_eq!(app.current_flag_values()[fidx].1, FlagValue::Count(3));
    press(&mut app, KeyCode::Backspace);
    assert_eq!(app.current_flag_values()[fidx].1, FlagValue::Count(2));
}

#[test]
fn test_editing_finished_on_mouse_click_different_arg() {
    let mut app = App::new(sample_spec());
    app.navigate_to_command(&path(&["run"]));
    app.set_focus(Focus::Args);
    app.set_arg_index(0);
    app.start_editing();
    assert!(app.is_editing());
    type_text(&mut app, "hi");
    assert_eq!(app.arg_values[0].value, "hi");
    app.layout = UiLayout::new();
    app.layout.register(Rect::new(40, 5, 60, 10), Focus::Args);
    app.handle_mouse(left_click(50, 7));
    assert!(!app.is_editing());
    assert_eq!(app.arg_values[0].value, "hi");
    assert_eq!(app.arg_values[1].value, "");
}

#[test]
fn test_editing_finished_on_mouse_click_different_panel() {
    let mut app = App::new(sample_spec());
    app.navigate_to_command(&path(&["run"]));
    app.set_focus(Focus::Args);
    app.set_arg_index(0);
    app.start_editing();
    type_text(&mut app, "test");
    assert_eq!(app.arg_values[0].value, "test");
    assert!(app.is_editing());
    app.layout = UiLayout::new();
    app.layout.register(Rect::new(0, 0, 40, 15), Focus::Flags);
    app.layout.register(Rect::new(40, 0, 60, 15), Focus::Args);
    app.handle_mouse(left_click(10, 3));
    assert!(!app.is_editing());
    assert_eq!(app.arg_values[0].value, "test");
    assert_eq!(app.focus(), Focus::Flags);
}

#[test]
fn test_set_focus_finishes_flag_editing() {
    let mut app = App::new(sample_spec());
    app.navigate_to_command(&path(&["deploy"]));
    app.set_focus(Focus::Flags);
    let fidx = flag_position(&app, "tag");
    app.set_flag_index(fidx);
    app.start_editing();
    type_text(&mut app, "v2");
    assert!(app.is_editing());
    assert_eq!(app.current_flag_values()[fidx].1, FlagValue::String("v2".to_string()));
    app.set_focus(Focus::Args);
    assert!(!app.is_editing());
    assert_eq!(app.focus(), Focus::Args);
    assert_eq!(app.current_flag_values()[fidx].1, FlagValue::String("v2".to_string()));
}

#[test]
fn test_flatten_command_tree_depth() {
    let app = App::new(sample_spec());
    let flat = flatten_command_tree(&app.command_panel.inner.tree_nodes);
    assert_eq!(flat[0].depth, 0);
    assert_eq!(flat[1].depth, 0);
    assert_eq!(flat[2].depth, 1);
    assert_eq!(flat[6].depth, 0);
    assert_eq!(flat[9].depth, 1);
}

#[test]
fn test_ctrl_r_executes_from_any_panel() {
    let mut app = App::new(sample_spec());
    app.navigate_to_command(&path(&["deploy"]));
    let ctrl_r = KeyPress { code: KeyCode::Char('r'), control: true };
    for focus in [Focus::Commands, Focus::Flags, Focus::Args, Focus::Preview] {
        app.set_focus(focus);
        assert_eq!(app.handle_key(ctrl_r), Action::Execute);
    }
}

#[test]
fn test_build_command_parts_basic() {
    let app = App::new(sample_spec());
    assert_eq!(app.build_command_parts(), vec!["mycli", "init"]);
}

#[test]
fn test_build_command_parts_with_subcommand() {
    let mut app = App::new(sample_spec());
    app.navigate_to_command(&path(&["deploy"]));
    assert_eq!(app.build_command_parts(), vec!["mycli", "deploy"]);
}

#[test]
fn test_build_command_parts_with_flags_and_args() {
    let mut app = App::new(sample_spec());
    app.navigate_to_command(&path(&["deploy"]));
    set_flag(&mut app, "deploy", "rollback", FlagValue::Bool(true));
    set_flag(&mut app, "deploy", "tag", FlagValue::String("v1.0".to_string()));
    app.arg_values[0].value = "prod".to_string();
    let parts = app.build_command_parts();
    for p in ["mycli", "deploy", "--rollback", "--tag", "v1.0", "prod"] {
        assert!(parts.contains(&p.to_string()));
    }
    let tag_idx = parts.iter().position(|p| p == "--tag").unwrap();
    assert_eq!(parts[tag_idx + 1], "v1.0");
}

const DRACULA: Theme = Theme { index: 0 };
const ONE_DARK_PRO: Theme = Theme { index: 1 };
const NORD: Theme = Theme { index: 2 };
const CYBERPUNK: Theme = Theme { index: tuisage::theme_picker::THEME_COUNT - 1 };

#[test]
fn test_app_mode_default_is_builder() {
    let app = App::new(sample_spec());
    assert_eq!(app.mode, AppMode::Builder);
    assert!(!app.is_executing());
}

#[test]
fn test_start_and_close_execution() {
    let mut app = App::new(sample_spec());
    app.start_execution();
    assert_eq!(app.mode, AppMode::Executing);
    assert!(app.is_executing());
    app.close_execution();
    assert_eq!(app.mode, AppMode::Builder);
    assert!(!app.is_executing());
}

#[test]
fn test_execution_key_closes_on_exit() {
    let mut app = App::new(sample_spec());
    app.start_execution();
    assert!(app.is_executing());
    assert_eq!(app.handle_execution_key(true, key(KeyCode::Esc)), None);
    assert!(!app.is_executing());
    assert_eq!(app.mode, AppMode::Builder);
}

#[test]
fn test_execution_key_enter_closes_on_exit() {
    let mut app = App::new(sample_spec());
    app.start_execution();
    assert_eq!(app.handle_execution_key(true, key(KeyCode::Enter)), None);
    assert!(!app.is_executing());
}

#[test]
fn test_preview_enter_returns_execute_action() {
    let mut app = App::new(sample_spec());
    app.set_focus(Focus::Preview);
    assert_eq!(press(&mut app, KeyCode::Enter), Action::Execute);
}

#[test]
fn test_execution_key_does_not_close_while_running() {
    let mut app = App::new(sample_spec());
    app.start_execution();
    app.handle_execution_key(false, key(KeyCode::Char('q')));
    assert!(app.is_executing());
}

#[test]
fn test_bracket_right_cycles_theme_forward() {
    let mut app = App::new(sample_spec());
    let initial = app.theme_name;
    assert_eq!(press(&mut app, KeyCode::Char(']')), Action::Idle);
    assert_ne!(app.theme_name, initial);
    assert_eq!(app.theme_name, ONE_DARK_PRO);
    let mut app2 = App::new(sample_spec());
    press(&mut app2, KeyCode::Char('T'));
    assert!(app2.is_theme_picking());
    assert_eq!(app2.theme_name, DRACULA);
}

#[test]
fn test_bracket_left_cycles_theme_backward() {
    let mut app = App::new(sample_spec());
    let initial = app.theme_name;
    assert_eq!(press(&mut app, KeyCode::Char('[')), Action::Idle);
    assert_ne!(app.theme_name, initial);
}

#[test]
fn test_bracket_left_right_are_inverses() {
    let mut app = App::new(sample_spec());
    let initial = app.theme_name;
    press(&mut app, KeyCode::Char(']'));
    assert_ne!(app.theme_name, initial);
    press(&mut app, KeyCode::Char('['));
    assert_eq!(app.theme_name, initial);
}

#[test]
fn test_enter_on_commands_navigates_into_child() {
    let mut app = App::new(sample_spec());
    app.set_focus(Focus::Commands);
    app.navigate_to_command(&path(&["config"]));
    let config_idx = app.command_index();
    assert_eq!(app.command_path, vec!["config"]);
    assert_eq!(press(&mut app, KeyCode::Enter), Action::Idle);
    assert!(app.command_index() > config_idx);
    assert!(app.command_path.len() >= 2);
}

#[test]
fn test_enter_on_commands_same_as_right() {
    let mut app_enter = App::new(sample_spec());
    app_enter.set_focus(Focus::Commands);
    app_enter.navigate_to_command(&path(&["config"]));
    let mut app_right = App::new(sample_spec());
    app_right.set_focus(Focus::Commands);
    app_right.navigate_to_command(&path(&["config"]));
    press(&mut app_enter, KeyCode::Enter);
    press(&mut app_right, KeyCode::Right);
    assert_eq!(app_enter.command_index(), app_right.command_index());
    assert_eq!(app_enter.command_path, app_right.command_path);
}

#[test]
fn test_enter_on_leaf_command_does_nothing() {
    let mut app = App::new(sample_spec());
    app.set_focus(Focus::Commands);
    app.navigate_to_command(&path(&["init"]));
    let init_idx = app.command_index();
    assert_eq!(press(&mut app, KeyCode::Enter), Action::Idle);
    assert_eq!(app.command_index(), init_idx);
}

#[test]
fn test_p_on_non_preview_does_nothing() {
    let mut app = App::new(sample_spec());
    app.set_focus(Focus::Commands);
    assert_eq!(press(&mut app, KeyCode::Char('p')), Action::Idle);
    app.set_focus(Focus::Flags);
    assert_eq!(press(&mut app, KeyCode::Char('p')), Action::Idle);
}

#[test]
fn test_startup_sync_selects_first_command() {
    let app = App::new(sample_spec());
    assert_eq!(app.command_path, vec!["init"]);
    let names: Vec<String> = app.visible_flags().iter().map(|f| f.name.clone()).collect();
    assert!(names.contains(&"template".to_string()));
    assert!(names.contains(&"force".to_string()));
    assert!(names.contains(&"verbose".to_string()));
    assert!(!app.arg_values.is_empty());
    assert_eq!(app.arg_values[0].name, "name");
}

#[test]
fn test_t_opens_theme_picker() {
    let mut app = App::new(sample_spec());
    assert!(!app.is_theme_picking());
    press(&mut app, KeyCode::Char('T'));
    assert!(app.is_theme_picking());
    assert_eq!(app.theme_picker.selected_index(), Some(0));
    assert_eq!(app.theme_picker.original_theme(), Some(DRACULA));
}

#[test]
fn test_theme_picker_esc_restores_original() {
    let mut app = App::new(sample_spec());
    app.open_theme_picker();
    press(&mut app, KeyCode::Down);
    assert_eq!(app.theme_name, ONE_DARK_PRO);
    press(&mut app, KeyCode::Esc);
    assert!(!app.is_theme_picking());
    assert_eq!(app.theme_name, DRACULA);
}

#[test]
fn test_theme_picker_enter_confirms() {
    let mut app = App::new(sample_spec());
    app.open_theme_picker();
    press(&mut app, KeyCode::Down);
    press(&mut app, KeyCode::Down);
    assert_eq!(app.theme_name, NORD);
    press(&mut app, KeyCode::Enter);
    assert!(!app.is_theme_picking());
    assert_eq!(app.theme_name, NORD);
}

#[test]
fn test_theme_picker_up_down_navigates() {
    let mut app = App::new(sample_spec());
    app.open_theme_picker();
    press(&mut app, KeyCode::Down);
    assert_eq!(app.theme_picker.selected_index(), Some(1));
    assert_eq!(app.theme_name, ONE_DARK_PRO);
    press(&mut app, KeyCode::Up);
    assert_eq!(app.theme_picker.selected_index(), Some(0));
    assert_eq!(app.theme_name, DRACULA);
    press(&mut app, KeyCode::Up);
    assert_eq!(app.theme_picker.selected_index(), Some(tuisage::theme_picker::THEME_COUNT - 1));
    assert_eq!(app.theme_name, CYBERPUNK);
}

#[test]
fn test_theme_picker_jk_navigates() {
    let mut app = App::new(sample_spec());
    app.open_theme_picker();
    press(&mut app, KeyCode::Char('j'));
    assert_eq!(app.theme_name, ONE_DARK_PRO);
    press(&mut app, KeyCode::Char('k'));
    assert_eq!(app.theme_name, DRACULA);
}

#[test]
fn test_theme_picker_t_does_not_nest() {
    let mut app = App::new(sample_spec());
    app.open_theme_picker();
    assert!(app.is_theme_picking());
    press(&mut app, KeyCode::Char('T'));
    assert!(app.is_theme_picking());
    assert_eq!(app.theme_picker.original_theme(), Some(DRACULA));
}

#[test]
fn test_bracket_keys_still_cycle_without_picker() {
    let mut app = App::new(sample_spec());
    press(&mut app, KeyCode::Char(']'));
    assert!(!app.is_theme_picking());
    assert_eq!(app.theme_name, ONE_DARK_PRO);
    press(&mut app, KeyCode::Char('['));
    assert!(!app.is_theme_picking());
    assert_eq!(app.theme_name, DRACULA);
}

#[test]
fn test_theme_picker_mouse_click_outside_closes() {
    let mut app = App::new(sample_spec());
    app.open_theme_picker();
    app.layout.theme_overlay_rect = Some(Rect::new(60, 5, 20, 17));
    app.handle_mouse(left_click(5, 5));
    assert!(!app.is_theme_picking());
    assert_eq!(app.theme_name, DRACULA);
}

#[test]
fn test_theme_picker_mouse_click_on_indicator_opens() {
    let mut app = App::new(sample_spec());
    app.layout.theme_indicator_rect = Some(Rect::new(85, 23, 10, 1));
    assert!(!app.is_theme_picking());
    app.handle_mouse(left_click(88, 23));
    assert!(app.is_theme_picking());
}

#[test]
fn test_theme_picker_down_wraps_at_end() {
    let mut app = App::new(sample_spec());
    app.open_theme_picker();
    press(&mut app, KeyCode::Up);
    assert_eq!(app.theme_picker.selected_index(), Some(tuisage::theme_picker::THEME_COUNT - 1));
    assert_eq!(app.theme_name, CYBERPUNK);
    press(&mut app, KeyCode::Down);
    assert_eq!(app.theme_picker.selected_index(), Some(0));
    assert_eq!(app.theme_name, DRACULA);
}

#[test]
fn test_filter_flags() {
    let mut app = App::new(sample_spec());
    app.navigate_to_command(&path(&["deploy"]));
    app.set_focus(Focus::Flags);
    press(&mut app, KeyCode::Char('/'));
    assert!(app.is_filtering());
    type_text(&mut app, "roll");
    assert_eq!(app.filter(), "roll");
    let scores = app.compute_flag_match_scores();
    assert!(scores.get("rollback").map(|s| s.overall()).unwrap_or(0) > 0);
    assert_eq!(scores.get("tag").map(|s| s.overall()).unwrap_or(0), 0);
    assert_eq!(scores.get("yes").map(|s| s.overall()).unwrap_or(0), 0);
    let names: Vec<String> = app.visible_flags().iter().map(|f| f.name.clone()).collect();
    assert!(names.contains(&"rollback".to_string()));
    assert!(names.contains(&"tag".to_string()));
    assert!(names.contains(&"yes".to_string()));
}

#[test]
fn test_filter_tab_switches_focus_and_clears() {
    let mut app = App::new(sample_spec());
    app.set_focus(Focus::Commands);
    press(&mut app, KeyCode::Char('/'));
    assert!(app.is_filtering());
    press(&mut app, KeyCode::Char('x'));
    assert_eq!(app.filter(), "x");
    press(&mut app, KeyCode::Tab);
    assert!(!app.is_filtering());
    assert!(app.filter().is_empty());
    assert_eq!(app.focus(), Focus::Flags);
}

#[test]
fn test_slash_does_not_activate_filter_in_preview_pane() {
    let mut app = App::new(sample_spec());
    app.set_focus(Focus::Preview);
    assert_eq!(app.focus(), Focus::Preview);
    assert!(!app.is_filtering());
    press(&mut app, KeyCode::Char('/'));
    assert!(!app.is_filtering());
    assert!(app.filter().is_empty());
}

#[test]
fn test_filtered_navigation_works_after_enter_applies_filter() {
    let mut app = App::new(sample_spec());
    app.set_focus(Focus::Commands);
    press(&mut app, KeyCode::Char('/'));
    assert!(app.is_filtering());
    press(&mut app, KeyCode::Char('p'));
    assert_eq!(app.filter(), "p");
    press(&mut app, KeyCode::Enter);
    assert!(!app.is_filtering());
    assert_eq!(app.filter(), "p");
    assert!(app.filter_active());
    press(&mut app, KeyCode::Char('j'));
    assert_eq!(app.filter(), "p");
    assert!(app.filter_active());
}

#[test]
fn test_esc_clears_applied_filter() {
    let mut app = App::new(sample_spec());
    app.set_focus(Focus::Commands);
    press(&mut app, KeyCode::Char('/'));
    press(&mut app, KeyCode::Char('p'));
    press(&mut app, KeyCode::Enter);
    assert!(!app.is_filtering());
    assert!(app.filter_active());
    press(&mut app, KeyCode::Esc);
    assert!(!app.is_filtering());
    assert!(!app.filter_active());
    assert!(app.filter().is_empty());
}

#[test]
fn test_args_filter_matches_name() {
    let mut app = App::new(sample_spec());
    app.navigate_to_command(&path(&["deploy"]));
    app.set_focus(Focus::Args);
    press(&mut app, KeyCode::Char('/'));
    assert!(app.is_filtering());
    type_text(&mut app, "env");
    assert_eq!(app.filter(), "env");
    let scores = app.compute_arg_match_scores();
    assert!(scores.get("environment").map(|s| s.overall()).unwrap_or(0) > 0);
}

#[test]
fn test_args_filtered_navigation() {
    let mut app = App::new(sample_spec());
    app.navigate_to_command(&path(&["init"]));
    app.set_focus(Focus::Args);
    press(&mut app, KeyCode::Char('/'));
    press(&mut app, KeyCode::Char('n'));
    press(&mut app, KeyCode::Enter);
    assert!(!app.is_filtering());
    assert!(app.filter_active());
    press(&mut app, KeyCode::Down);
    assert!(app.filter_active());
}

#[test]
fn test_tab_clears_applied_filter() {
    let mut app = App::new(sample_spec());
    app.set_focus(Focus::Commands);
    press(&mut app, KeyCode::Char('/'));
    press(&mut app, KeyCode::Char('p'));
    press(&mut app, KeyCode::Enter);
    assert!(app.filter_active());
    press(&mut app, KeyCode::Tab);
    assert!(!app.filter_active());
    assert!(app.filter().is_empty());
    assert_eq!(app.focus(), Focus::Flags);
}

#[test]
fn test_set_focus_clears_applied_filter() {
    let mut app = App::new(sample_spec());
    app.set_focus(Focus::Commands);
    press(&mut app, KeyCode::Char('/'));
    press(&mut app, KeyCode::Char('p'));
    press(&mut app, KeyCode::Enter);
    assert!(app.filter_active());
    app.set_focus(Focus::Flags);
    assert!(!app.filter_active());
    assert!(app.filter().is_empty());
    assert_eq!(app.focus(), Focus::Flags);
}

#[test]
fn test_scroll_offset_ensure_visible() {
    let mut app = App::new(sample_spec());
    app.set_focus(Focus::Commands);
    app.command_panel.inner.select_item(5);
    app.command_panel.inner.set_scroll(0);
    app.ensure_visible(Focus::Commands, 3);
    assert_eq!(app.command_scroll(), 3);
    app.command_panel.inner.select_item(2);
    app.ensure_visible(Focus::Commands, 3);
    assert_eq!(app.command_scroll(), 2);
    app.command_panel.inner.select_item(3);
    app.ensure_visible(Focus::Commands, 3);
    assert_eq!(app.command_scroll(), 2);
}

#[test]
fn test_scroll_offset_on_move_up() {
    let mut app = App::new(sample_spec());
    app.set_focus(Focus::Commands);
    app.command_panel.inner.set_scroll(2);
    app.command_panel.inner.select_item(2);
    app.move_up();
    assert_eq!(app.command_index(), 1);
}

#[test]
fn test_mouse_click_focuses_panel() {
    let mut app = App::new(sample_spec());
    app.set_focus(Focus::Commands);
    app.layout = UiLayout::new();
    app.layout.register(Rect::new(0, 1, 40, 18), Focus::Commands);
    app.layout.register(Rect::new(40, 1, 60, 18), Focus::Flags);
    app.layout.register(Rect::new(0, 21, 100, 3), Focus::Preview);
    app.handle_mouse(left_click(50, 3));
    assert_eq!(app.focus(), Focus::Flags);
    app.handle_mouse(left_click(10, 22));
    assert_eq!(app.focus(), Focus::Preview);
    app.handle_mouse(left_click(10, 3));
    assert_eq!(app.focus(), Focus::Commands);
}

#[test]
fn test_mouse_click_selects_item() {
    let mut app = App::new(sample_spec());
    app.set_focus(Focus::Commands);
    app.layout = UiLayout::new();
    app.layout.register(Rect::new(0, 1, 40, 18), Focus::Commands);
    app.handle_mouse(left_click(10, 4));
    assert_eq!(app.command_index(), 2);
}

#[test]
fn test_focus_manager_integration() {
    let mut app = App::new(sample_spec());
    assert_eq!(app.focus(), Focus::Commands);
    app.focus_manager.next();
    assert_eq!(app.focus(), Focus::Flags);
    app.focus_manager.next();
    assert_eq!(app.focus(), Focus::Args);
    app.focus_manager.next();
    assert_eq!(app.focus(), Focus::Preview);
    app.focus_manager.next();
    assert_eq!(app.focus(), Focus::Commands);
    app.focus_manager.prev();
    assert_eq!(app.focus(), Focus::Preview);
}

#[test]
fn test_tree_view_state_integration() {
    let mut app = App::new(sample_spec());
    assert_eq!(app.total_visible_commands(), 15);
    assert_eq!(app.command_index(), 0);
    app.command_panel.inner.move_down();
    assert_eq!(app.command_index(), 1);
    app.command_panel.inner.move_up();
    assert_eq!(app.command_index(), 0);
    app.command_panel.inner.move_up();
    assert_eq!(app.command_index(), 0);
}

#[test]
fn test_input_state_editing() {
    let mut app = App::new(sample_spec());
    app.navigate_to_command(&path(&["init"]));
    app.set_focus(Focus::Args);
    app.set_arg_index(0);
    app.start_editing();
    assert!(app.arg_panel.inner.is_editing());
    type_text(&mut app, "hello");
    assert_eq!(app.arg_values[0].value, "hello");
    press(&mut app, KeyCode::Backspace);
    assert_eq!(app.arg_values[0].value, "hell");
    press(&mut app, KeyCode::Enter);
    assert!(!app.arg_panel.inner.is_editing());
}

#[test]
fn test_click_region_registry() {
    let mut app = App::new(sample_spec());
    app.layout = UiLayout::new();
    app.layout.register(Rect::new(0, 0, 40, 20), Focus::Commands);
    app.layout.register(Rect::new(40, 0, 60, 20), Focus::Flags);
    app.layout.register(Rect::new(0, 20, 100, 3), Focus::Preview);
    assert_eq!(app.layout.region_at(10, 5).map(|(f, _)| f), Some(Focus::Commands));
    assert_eq!(app.layout.region_at(50, 5).map(|(f, _)| f), Some(Focus::Flags));
    assert_eq!(app.layout.region_at(50, 21).map(|(f, _)| f), Some(Focus::Preview));
}

#[test]
fn test_filter_input_state() {
    let mut app = App::new(sample_spec());
    press(&mut app, KeyCode::Char('/'));
    assert!(app.is_filtering());
    assert!(app.filter().is_empty());
    press(&mut app, KeyCode::Char('d'));
    assert_eq!(app.filter(), "d");
}

#[test]
fn test_edit_input_not_shared_between_args() {
    let mut app = App::new(sample_spec());
    app.navigate_to_command(&path(&["run"]));
    app.set_focus(Focus::Args);
    app.set_arg_index(0);
    app.start_editing();
    type_text(&mut app, "build");
    assert_eq!(app.arg_values[0].value, "build");
    press(&mut app, KeyCode::Enter);
    assert!(!app.is_editing());
    app.set_arg_index(1);
    app.start_editing();
    assert_eq!(app.arg_panel.inner.editing_text(), "");
    assert_eq!(app.arg_values[0].value, "build");
    assert_eq!(app.arg_values[1].value, "");
}

#[test]
fn test_backspace_noop_on_non_flag_arg_focus() {
    let mut app = App::new(sample_spec());
    app.set_focus(Focus::Commands);
    press(&mut app, KeyCode::Backspace);
    assert_eq!(app.focus(), Focus::Commands);
}

#[test]
fn test_filtered_navigation_skips_non_matches() {
    let mut app = App::new(sample_spec());
    app.set_focus(Focus::Commands);
    press(&mut app, KeyCode::Char('/'));
    type_text(&mut app, "deploy");
    let flat = flatten_command_tree(&app.command_panel.inner.tree_nodes);
    assert_eq!(flat[app.command_index()].name, "deploy");
    press(&mut app, KeyCode::Down);
    assert_eq!(flat[app.command_index()].name, "deploy");
    press(&mut app, KeyCode::Up);
    assert_eq!(flat[app.command_index()].name, "deploy");
}

#[test]
fn test_filtered_navigation_cycles_through_matches() {
    let mut app = App::new(sample_spec());
    app.set_focus(Focus::Commands);
    press(&mut app, KeyCode::Char('/'));
    type_text(&mut app, "'list");
    let flat = flatten_command_tree(&app.command_panel.inner.tree_nodes);
    let first_selected = app.command_index();
    assert_eq!(flat[first_selected].name, "list");
    press(&mut app, KeyCode::Down);
    let second_selected = app.command_index();
    assert_ne!(second_selected, first_selected);
    assert_eq!(flat[second_selected].name, "list");
    press(&mut app, KeyCode::Up);
    assert_eq!(app.command_index(), first_selected);
}

#[test]
fn test_filtered_flag_navigation() {
    let mut app = App::new(sample_spec());
    app.navigate_to_command(&path(&["deploy"]));
    app.set_focus(Focus::Flags);
    press(&mut app, KeyCode::Char('/'));
    type_text(&mut app, "skip");
    let flags = app.visible_flags();
    assert_eq!(flags[app.flag_index()].name, "skip-tests");
}

#[test]
fn test_match_scores_separate_name_and_help() {
    let app = App::new(sample_spec());
    let scores = compute_tree_scores(&app.command_panel.inner.tree_nodes, "verbose");
    if let Some(init_scores) = scores.get("init") {
        assert_eq!(init_scores.name_score, 0);
    }
}

#[test]
fn test_match_scores_help_only_match() {
    let app = App::new(sample_spec());
    let scores = compute_tree_scores(&app.command_panel.inner.tree_nodes, "project");
    let init_scores = scores.get("init").expect("init should have scores");
    assert_eq!(init_scores.name_score, 0);
    assert!(init_scores.help_score > 0);
    assert!(init_scores.overall() > 0);
}

#[test]
fn test_match_scores_name_only_match() {
    let app = App::new(sample_spec());
    let scores = compute_tree_scores(&app.command_panel.inner.tree_nodes, "cfg");
    let config_scores = scores.get("config").expect("config should have scores");
    assert!(config_scores.name_score > 0);
}

#[test]
fn test_flag_match_scores_separate_name_and_help() {
    let mut app = App::new(sample_spec());
    app.navigate_to_command(&path(&["deploy"]));
    app.set_focus(Focus::Flags);
    app.flag_panel.start_filtering();
    app.flag_panel.set_filter_text("Docker");
    let scores = app.compute_flag_match_scores();
    let tag_scores = scores.get("tag").expect("tag should have scores");
    assert_eq!(tag_scores.name_score, 0);
    assert!(tag_scores.help_score > 0);
}

#[test]
fn test_args_filter_auto_selects_matching_arg() {
    let mut app = App::new(sample_spec());
    app.navigate_to_command(&path(&["config", "set"]));
    app.set_focus(Focus::Args);
    assert!(app.arg_values.len() >= 2);
    app.set_arg_index(0);
    assert_eq!(app.arg_index(), 0);
    let first_arg_name = app.arg_values[0].name.clone();
    press(&mut app, KeyCode::Char('/'));
    assert!(app.is_filtering());
    type_text(&mut app, "val");
    let scores = app.compute_arg_match_scores();
    assert_eq!(scores.get(&first_arg_name).map(|s| s.overall()).unwrap_or(0), 0);
    let selected_name = app.arg_values[app.arg_index()].name.clone();
    assert!(scores.get(&selected_name).map(|s| s.overall()).unwrap_or(0) > 0);
}

fn open_environment_choices(app: &mut App) {
    app.navigate_to_command(&path(&["deploy"]));
    app.set_focus(Focus::Args);
    app.set_arg_index(0);
    press(app, KeyCode::Enter);
}

#[test]
fn test_enter_on_choice_flag_opens_select_box() {
    let mut app = App::new(sample_spec());
    app.navigate_to_command(&path(&["init"]));
    app.set_focus(Focus::Flags);
    let fidx = flag_position(&app, "template");
    app.set_flag_index(fidx);
    assert!(!app.is_choosing());
    press(&mut app, KeyCode::Enter);
    assert!(app.is_choosing());
    assert!(app.flag_panel.inner.is_choosing());
    assert_eq!(app.flag_panel.inner.choice_select_index(), Some(fidx));
}

#[test]
fn test_enter_on_choice_arg_opens_select_box() {
    let mut app = App::new(sample_spec());
    app.navigate_to_command(&path(&["deploy"]));
    app.set_focus(Focus::Args);
    app.set_arg_index(0);
    assert!(!app.is_choosing());
    press(&mut app, KeyCode::Enter);
    assert!(app.is_choosing());
    assert!(app.arg_panel.inner.is_choosing());
    assert_eq!(app.arg_panel.inner.choice_select_index(), Some(0));
}

#[test]
fn test_choice_select_enter_confirms() {
    let mut app = App::new(sample_spec());
    open_environment_choices(&mut app);
    assert!(app.is_choosing());
    press(&mut app, KeyCode::Down);
    press(&mut app, KeyCode::Down);
    press(&mut app, KeyCode::Enter);
    assert!(!app.is_choosing());
    assert_eq!(app.arg_values[0].value, "staging");
}

#[test]
fn test_choice_select_esc_cancels() {
    let mut app = App::new(sample_spec());
    open_environment_choices(&mut app);
    assert!(app.is_choosing());
    press(&mut app, KeyCode::Down);
    press(&mut app, KeyCode::Esc);
    assert!(!app.is_choosing());
    assert_eq!(app.arg_values[0].value, "");
}

#[test]
fn test_choice_select_filter_narrows_choices() {
    let mut app = App::new(sample_spec());
    open_environment_choices(&mut app);
    assert!(app.is_choosing());
    assert_eq!(app.arg_panel.inner.filtered_choices().len(), 3);
    press(&mut app, KeyCode::Char('d'));
    let filtered = app.arg_panel.inner.filtered_choices();
    assert!(filtered.len() < 3);
    assert!(filtered.iter().any(|(_, c)| c == "dev"));
    press(&mut app, KeyCode::Char('e'));
    press(&mut app, KeyCode::Char('v'));
    let filtered = app.arg_panel.inner.filtered_choices();
    assert_eq!(filtered.len(), 1);
    assert_eq!(filtered[0].1, "dev");
    press(&mut app, KeyCode::Enter);
    assert!(!app.is_choosing());
    assert_eq!(app.arg_values[0].value, "dev");
}

#[test]
fn test_choice_select_preselects_current_value() {
    let mut app = App::new(sample_spec());
    app.navigate_to_command(&path(&["deploy"]));
    app.set_focus(Focus::Args);
    app.set_arg_index(0);
    app.arg_values[0].value = "staging".to_string();
    press(&mut app, KeyCode::Enter);
    assert!(app.is_choosing());
    assert_eq!(app.arg_panel.inner.selected_choice_index(), Some(1));
}

#[test]
fn test_choice_select_flag_confirms_value() {
    let mut app = App::new(sample_spec());
    app.navigate_to_command(&path(&["init"]));
    app.set_focus(Focus::Flags);
    let fidx = flag_position(&app, "template");
    app.set_flag_index(fidx);
    press(&mut app, KeyCode::Enter);
    assert!(app.is_choosing());
    press(&mut app, KeyCode::Down);
    press(&mut app, KeyCode::Down);
    press(&mut app, KeyCode::Enter);
    assert!(!app.is_choosing());
    assert_eq!(app.current_flag_values()[fidx].1, FlagValue::String("full".to_string()));
}

#[test]
fn test_choice_select_mouse_click_closes() {
    let mut app = App::new(sample_spec());
    open_environment_choices(&mut app);
    assert!(app.is_choosing());
    app.handle_mouse(left_click(5, 5));
    assert!(!app.is_choosing());
}

#[test]
fn test_choice_select_navigation_bounds() {
    let mut app = App::new(sample_spec());
    open_environment_choices(&mut app);
    press(&mut app, KeyCode::Up);
    assert_eq!(app.arg_panel.inner.selected_choice_index(), None);
    press(&mut app, KeyCode::Down);
    assert_eq!(app.arg_panel.inner.selected_choice_index(), Some(0));
    press(&mut app, KeyCode::Down);
    press(&mut app, KeyCode::Down);
    assert_eq!(app.arg_panel.inner.selected_choice_index(), Some(2));
    press(&mut app, KeyCode::Down);
    assert_eq!(app.arg_panel.inner.selected_choice_index(), Some(2));
}

#[test]
fn test_choice_select_set_focus_closes() {
    let mut app = App::new(sample_spec());
    open_environment_choices(&mut app);
    assert!(app.is_choosing());
    app.set_focus(Focus::Flags);
    assert!(!app.is_choosing());
}

/// What the plugin listing commands print.
const PLUGIN_NAMES: &str = "auth\ncache\nlog\nmetrics\nqueue\nsearch\nmail\nstorage\nsession\nadmin\napi\ncron\nwebhook\nbilling\nexport\n";
const PLUGIN_DESCRIPTIONS: &str = "auth:Authentication plugin\ncache:Redis cache layer\n";

/// Answer the completion the app asked for with what the command printed.
fn complete_with(app: &mut App, output: &str) {
    let request = app.take_pending_completion().expect("a completion was asked for");
    let result = completions_from_output(true, output, request.descriptions);
    app.finish_completion(request, result);
}

fn open_plugin_completion(app: &mut App, command: &str, output: &str) {
    app.navigate_to_command(&path(&["plugin", command]));
    app.set_focus(Focus::Args);
    app.set_arg_index(0);
    press(app, KeyCode::Enter);
    complete_with(app, output);
}

#[test]
fn test_find_completion_exists() {
    let mut app = App::new(sample_spec());
    app.navigate_to_command(&path(&["plugin", "install"]));
    let complete = app.find_completion("name");
    assert!(complete.is_some());
    assert!(complete.unwrap().run.is_some());
}

#[test]
fn test_find_completion_not_exists() {
    let mut app = App::new(sample_spec());
    app.navigate_to_command(&path(&["plugin", "install"]));
    assert!(app.find_completion("nonexistent").is_none());
}

#[test]
fn test_find_completion_with_descriptions_flag() {
    let mut app = App::new(sample_spec());
    app.navigate_to_command(&path(&["plugin", "update"]));
    let complete = app.find_completion("name");
    assert!(complete.is_some());
    assert!(complete.unwrap().descriptions);
}

#[test]
fn test_enter_on_completion_arg_opens_select() {
    let mut app = App::new(sample_spec());
    open_plugin_completion(&mut app, "install", PLUGIN_NAMES);
    assert!(app.is_choosing());
    assert!(app.is_editing());
}

#[test]
fn test_esc_from_completion_select_keeps_text() {
    let mut app = App::new(sample_spec());
    open_plugin_completion(&mut app, "install", PLUGIN_NAMES);
    assert!(app.is_choosing());
    press(&mut app, KeyCode::Char('a'));
    press(&mut app, KeyCode::Esc);
    assert!(!app.is_choosing());
    assert!(!app.is_editing());
    assert_eq!(app.arg_values[0].value, "a");
}

#[test]
fn test_set_focus_from_completion_select_keeps_typed_text() {
    let mut app = App::new(sample_spec());
    open_plugin_completion(&mut app, "install", PLUGIN_NAMES);
    assert!(app.is_choosing());
    assert!(app.is_editing());
    press(&mut app, KeyCode::Char('a'));
    app.set_focus(Focus::Flags);
    assert_eq!(app.focus(), Focus::Flags);
    assert!(!app.is_choosing());
    assert!(!app.is_editing());
    assert_eq!(app.arg_values[0].value, "a");
}

#[test]
fn test_completion_descriptions_in_select() {
    let mut app = App::new(sample_spec());
    open_plugin_completion(&mut app, "update", PLUGIN_DESCRIPTIONS);
    assert!(app.is_choosing());
    assert!(app.arg_panel.inner.is_choosing());
    assert!(!app.arg_panel.inner.filtered_choices().is_empty());
}

#[test]
fn test_completion_filter_matches_description() {
    let mut app = App::new(sample_spec());
    open_plugin_completion(&mut app, "update", PLUGIN_DESCRIPTIONS);
    assert!(app.is_choosing());
    type_text(&mut app, "redis");
    let filtered = app.arg_panel.inner.filtered_choices();
    assert_eq!(filtered.len(), 1);
    assert_eq!(filtered[0].1, "cache");
}

#[test]
fn test_choice_select_typing_clears_selection() {
    let mut app = App::new(sample_spec());
    open_environment_choices(&mut app);
    assert!(app.is_choosing());
    press(&mut app, KeyCode::Down);
    assert_eq!(app.arg_panel.inner.selected_choice_index(), Some(0));
    press(&mut app, KeyCode::Char('d'));
    assert_eq!(app.arg_panel.inner.selected_choice_index(), None);
}

#[test]
fn test_choice_select_enter_with_no_selection_accepts_text() {
    let mut app = App::new(sample_spec());
    open_environment_choices(&mut app);
    assert!(app.is_choosing());
    type_text(&mut app, "custom");
    assert_eq!(app.arg_panel.inner.selected_choice_index(), None);
    press(&mut app, KeyCode::Enter);
    assert!(!app.is_choosing());
    assert!(!app.is_editing());
    assert_eq!(app.arg_values[0].value, "custom");
}

#[test]
fn test_choice_select_up_from_first_deselects() {
    let mut app = App::new(sample_spec());
    open_environment_choices(&mut app);
    press(&mut app, KeyCode::Down);
    assert_eq!(app.arg_panel.inner.selected_choice_index(), Some(0));
    press(&mut app, KeyCode::Up);
    assert_eq!(app.arg_panel.inner.selected_choice_index(), None);
}

#[test]
fn test_choice_select_reopen_after_selection() {
    let mut app = App::new(sample_spec());
    open_environment_choices(&mut app);
    assert!(app.is_choosing());
    press(&mut app, KeyCode::Down);
    press(&mut app, KeyCode::Enter);
    assert!(!app.is_choosing());
    assert_eq!(app.arg_values[0].value, "dev");
    press(&mut app, KeyCode::Enter);
    assert!(app.is_choosing());
    assert_eq!(app.arg_panel.inner.selected_choice_index(), Some(0));
}

#[test]
fn test_choice_select_shows_all_choices_on_reopen() {
    let mut app = App::new(sample_spec());
    open_environment_choices(&mut app);
    press(&mut app, KeyCode::Down);
    press(&mut app, KeyCode::Enter);
    assert_eq!(app.arg_values[0].value, "dev");
    press(&mut app, KeyCode::Enter);
    assert!(app.is_choosing());
    assert_eq!(app.arg_panel.inner.filtered_choices().len(), 3);
    press(&mut app, KeyCode::Char('s'));
    assert!(app.arg_panel.inner.filtered_choices().len() < 3);
}

#[test]
fn test_mouse_click_on_choice_select_overlay() {
    let mut app = App::new(sample_spec());
    open_environment_choices(&mut app);
    assert!(app.is_choosing());
    app.layout.arg_overlay_rect = Some(Rect::new(30, 5, 20, 4));
    app.handle_mouse(left_click(35, 7));
    assert!(!app.is_choosing());
    assert_eq!(app.arg_values[0].value, "prod");
}

#[test]
fn test_mouse_click_on_scrolled_choice_select() {
    let mut app = App::new(sample_spec());
    open_plugin_completion(&mut app, "install", PLUGIN_NAMES);
    assert!(app.is_choosing());
    for _ in 0..13 {
        press(&mut app, KeyCode::Down);
    }
    app.layout.arg_overlay_rect = Some(Rect::new(30, 5, 25, 11));
    app.handle_mouse(left_click(35, 10));
    assert!(!app.is_choosing());
    assert!(!app.arg_values[0].value.is_empty());
}

#[test]
fn test_mouse_click_on_completion_clears_editing() {
    let mut app = App::new(sample_spec());
    open_plugin_completion(&mut app, "install", PLUGIN_NAMES);
    assert!(app.is_choosing());
    assert!(app.arg_panel.inner.is_editing());
    press(&mut app, KeyCode::Down);
    press(&mut app, KeyCode::Down);
    press(&mut app, KeyCode::Down);
    app.layout.arg_overlay_rect = Some(Rect::new(30, 5, 25, 11));
    app.handle_mouse(left_click(35, 7));
    assert!(!app.is_choosing());
    assert!(!app.arg_panel.inner.is_editing());
    assert!(!app.arg_values[0].value.is_empty());
}

#[test]
fn test_visible_subcommands_at_root() {
    let mut app = App::new(sample_spec());
    app.command_path.clear();
    app.sync_state();
    let names: Vec<String> = app.visible_subcommands().iter().map(|c| c.name.clone()).collect();
    for n in ["init", "config", "run", "deploy", "plugin", "version", "help"] {
        assert!(names.contains(&n.to_string()));
    }
}

#[test]
fn test_navigate_to_command() {
    let mut app = App::new(sample_spec());
    app.navigate_to_command(&path(&["config"]));
    assert_eq!(app.command_path, vec!["config"]);
    let names: Vec<String> = app.visible_subcommands().iter().map(|c| c.name.clone()).collect();
    for n in ["set", "get", "list", "remove"] {
        assert!(names.contains(&n.to_string()));
    }
}

#[test]
fn test_mouse_scroll_over_other_panel_moves_that_panel() {
    let mut app = App::new(sample_spec());
    app.set_focus(Focus::Commands);
    app.layout.register(Rect::new(0, 1, 40, 18), Focus::Commands);
    app.layout.register(Rect::new(40, 1, 60, 18), Focus::Flags);
    let before = app.flag_index();
    app.handle_mouse(MouseInput { kind: MouseKind::ScrollDown, column: 50, row: 5 });
    assert_eq!(app.flag_index(), before + 1);
    assert_eq!(app.command_index(), 0);
    assert_eq!(app.focus(), Focus::Commands);
}

#[test]
fn test_theme_cycling() {
    let mut app = App::new(sample_spec());
    assert_eq!(app.theme_name, DRACULA);
    app.next_theme();
    assert_eq!(app.theme_name, ONE_DARK_PRO);
    app.next_theme();
    assert_eq!(app.theme_name, NORD);
    app.prev_theme();
    assert_eq!(app.theme_name, ONE_DARK_PRO);
}

#[test]
fn test_theme_key_binding() {
    let mut app = App::new(sample_spec());
    assert_eq!(app.theme_name, DRACULA);
    press(&mut app, KeyCode::Char('T'));
    assert!(app.is_theme_picking());
    assert_eq!(app.theme_name, DRACULA);
}

#[test]
fn test_with_theme_constructor() {
    let app = App::with_theme(sample_spec(), NORD);
    assert_eq!(app.theme_name, NORD);
}

#[test]
fn test_count_flag_preview_after_decrement() {
    let mut app = App::new(sample_spec());
    app.set_focus(Focus::Flags);
    let fidx = flag_position(&app, "verbose");
    app.set_flag_index(fidx);
    press(&mut app, KeyCode::Char(' '));
    press(&mut app, KeyCode::Char(' '));
    assert!(app.build_command().contains("-vv"));
    press(&mut app, KeyCode::Backspace);
    let preview = app.build_command();
    assert!(preview.contains("-v") && !preview.contains("-vv"));
    press(&mut app, KeyCode::Backspace);
    let preview = app.build_command();
    assert!(!preview.contains("-v ") && !preview.contains("-vv"));
}

#[test]
fn test_editing_arg_then_switching_does_not_bleed() {
    let mut app = App::new(sample_spec());
    app.navigate_to_command(&path(&["run"]));
    app.set_focus(Focus::Args);
    app.set_arg_index(0);
    app.start_editing();
    type_text(&mut app, "hello");
    assert!(app.build_command().contains("hello"));
    app.finish_editing();
    app.set_arg_index(1);
    assert_eq!(app.arg_values[1].value, "");
    assert_eq!(app.arg_values[0].value, "hello");
}

#[test]
fn test_p_on_preview_accepts_command() {
    let mut app = App::new(sample_spec());
    app.navigate_to_command(&path(&["deploy"]));
    app.set_focus(Focus::Preview);
    let before = app.build_command();
    assert_eq!(press(&mut app, KeyCode::Char('p')), Action::Accept);
    assert_eq!(app.build_command(), before);
    assert_eq!(app.command_path, vec!["deploy"]);
}

#[test]
fn test_esc_moves_to_parent_command() {
    let mut app = App::new(sample_spec());
    app.navigate_to_command(&path(&["config", "set"]));
    app.set_focus(Focus::Commands);
    assert_eq!(press(&mut app, KeyCode::Esc), Action::Idle);
    assert_eq!(app.command_path, vec!["config"]);
    let flat = flatten_command_tree(&app.command_panel.inner.tree_nodes);
    assert_eq!(flat[app.command_index()].id, "config");
}

#[test]
fn test_esc_at_top_level_quits() {
    let mut app = App::new(sample_spec());
    app.navigate_to_command(&path(&["config"]));
    app.set_focus(Focus::Commands);
    assert_eq!(press(&mut app, KeyCode::Esc), Action::Quit);
    assert_eq!(app.command_path, vec!["config"]);
}

#[test]
fn test_esc_cancels_filter_before_leaving() {
    let mut app = App::new(sample_spec());
    app.navigate_to_command(&path(&["plugin", "install"]));
    app.set_focus(Focus::Commands);
    press(&mut app, KeyCode::Char('/'));
    press(&mut app, KeyCode::Char('i'));
    press(&mut app, KeyCode::Enter);
    assert!(app.filter_active());
    // The first Esc clears the applied filter, the next moves to the parent.
    assert_eq!(press(&mut app, KeyCode::Esc), Action::Idle);
    assert!(!app.filter_active());
    app.navigate_to_command(&path(&["plugin", "install"]));
    assert_eq!(press(&mut app, KeyCode::Esc), Action::Idle);
    assert_eq!(app.command_path, vec!["plugin"]);
}

#[test]
fn test_esc_from_args_panel_moves_to_parent() {
    let mut app = App::new(sample_spec());
    app.navigate_to_command(&path(&["plugin", "update"]));
    app.set_focus(Focus::Args);
    assert_eq!(press(&mut app, KeyCode::Esc), Action::Idle);
    assert_eq!(app.command_path, vec!["plugin"]);
}

#[test]
fn test_sync_state_twice_changes_nothing() {
    let mut app = App::new(sample_spec());
    app.navigate_to_command(&path(&["deploy"]));
    app.arg_values[0].value = "prod".to_string();
    app.persist_current_arg_values();
    app.sync_state();
    let first_args = app.arg_values.clone();
    let first_flags = app.current_flag_values();
    let first_focus = app.focus();
    app.sync_state();
    assert_eq!(app.arg_values[0].value, "prod");
    assert_eq!(app.arg_values.len(), first_args.len());
    assert_eq!(app.current_flag_values(), first_flags);
    assert_eq!(app.focus(), first_focus);
}
