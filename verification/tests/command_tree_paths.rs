use tuisage::command_panel::split_on_spaces;
use tuisage::command_tree::{build_command_tree, compute_tree_scores, flatten_command_tree, parent_id};
use tuisage::spec_model::{CliSpec, CommandSpec};

fn command(name: &str, help: Option<&str>, subcommands: Vec<CommandSpec>) -> CommandSpec {
    CommandSpec {
        name: name.to_string(),
        help: help.map(|h| h.to_string()),
        aliases: Vec::new(),
        hidden_aliases: Vec::new(),
        hide: false,
        flags: Vec::new(),
        args: Vec::new(),
        subcommands,
        complete: Vec::new(),
    }
}

fn sample() -> CliSpec {
    let mut hidden = command("secret", None, Vec::new());
    hidden.hide = true;
    CliSpec {
        name: "My CLI".to_string(),
        bin: "mycli".to_string(),
        cmd: command(
            "mycli",
            None,
            vec![
                command("init", Some("Initialize"), Vec::new()),
                command(
                    "config",
                    Some("Manage configuration"),
                    vec![command("set", Some("Set a value"), Vec::new()), command("get", Some("Get a value"), Vec::new())],
                ),
                hidden,
            ],
        ),
    }
}

#[test]
fn test_parent_id() {
    assert_eq!(parent_id(""), None);
    assert_eq!(parent_id("init"), Some("".to_string()));
    assert_eq!(parent_id("config"), Some("".to_string()));
    assert_eq!(parent_id("config set"), Some("config".to_string()));
    assert_eq!(parent_id("plugin install"), Some("plugin".to_string()));
}

#[test]
fn test_tree_ids_are_space_joined_paths() {
    let tree = build_command_tree(&sample());
    let ids: Vec<&str> = tree.iter().map(|n| n.id.as_str()).collect();
    assert_eq!(ids, vec!["init", "config"]);
    let children: Vec<&str> = tree[1].children.iter().map(|n| n.id.as_str()).collect();
    assert_eq!(children, vec!["config set", "config get"]);
    for child in &tree[1].children {
        assert_eq!(parent_id(&child.id), Some("config".to_string()));
    }
}

#[test]
fn test_flatten_depth_and_full_path() {
    let flat = flatten_command_tree(&build_command_tree(&sample()));
    let rows: Vec<(&str, usize, &str)> = flat.iter().map(|c| (c.id.as_str(), c.depth, c.full_path.as_str())).collect();
    assert_eq!(
        rows,
        vec![("init", 0, "init"), ("config", 0, "config"), ("config set", 1, "config set"), ("config get", 1, "config get")]
    );
}

#[test]
fn test_full_path_scoring() {
    let tree = build_command_tree(&sample());
    let scores = compute_tree_scores(&tree, "cfgset");
    assert!(scores.get("config set").map(|s| s.overall()).unwrap_or(0) > 0);
    assert_eq!(scores.get("init").map(|s| s.overall()).unwrap_or(0), 0);
}

#[test]
fn test_split_on_spaces_inverts_join() {
    assert_eq!(split_on_spaces("config set"), vec!["config", "set"]);
    assert_eq!(split_on_spaces("init"), vec!["init"]);
    assert_eq!(split_on_spaces(""), vec![""]);
}

#[test]
fn test_split_whitespace_words_agrees_with_std() {
    let text = "a\tb\nc\u{0B}d\u{0C}e\rf g\u{85}h\u{A0}i\u{1680}j\u{2000}k\u{200A}l\u{2028}m\u{2029}n\u{202F}o\u{205F}p\u{3000}q\u{200B}r\u{180E}s";
    let ours = tuisage::command_builder::split_whitespace_words(text);
    let std_words: Vec<String> = text.split_whitespace().map(|w| w.to_string()).collect();
    assert_eq!(ours, std_words);
    assert_eq!(ours.len(), 17);
}
