use tuisage::spec_text::{load_spec, with_bin_override};

const SPEC: &str = r#"
name "My CLI"
bin "mycli"
flag "-v --verbose" count=#true global=#true
cmd "init" help="Initialize a new project" {
    flag "-f --force"
    arg "<name>"
}
cmd "deploy" {
    arg "<environment>" {
        choices "dev" "prod"
    }
}
"#;

#[test]
fn test_load_spec_reads_commands() {
    let spec = load_spec(SPEC, None).expect("the spec parses");
    assert_eq!(spec.name, "My CLI");
    assert_eq!(spec.bin, "mycli");
    assert_eq!(spec.cmd.name, "mycli");
    assert_eq!(spec.cmd.flags.len(), 1);
    assert_eq!(spec.cmd.flags[0].name, "verbose");
    assert!(spec.cmd.flags[0].global && spec.cmd.flags[0].count);
    let names: Vec<&str> = spec.cmd.subcommands.iter().map(|c| c.name.as_str()).collect();
    assert_eq!(names, vec!["init", "deploy"]);
    let init = &spec.cmd.subcommands[0];
    assert_eq!(init.help.as_deref(), Some("Initialize a new project"));
    assert_eq!(init.flags[0].long, vec!["force".to_string()]);
    assert_eq!(init.flags[0].short, vec!['f']);
    assert_eq!(init.args[0].name, "name");
    assert!(init.args[0].required);
    let deploy = &spec.cmd.subcommands[1];
    assert_eq!(deploy.args[0].choices, Some(vec!["dev".to_string(), "prod".to_string()]));
}

#[test]
fn test_load_spec_applies_cmd_override() {
    let spec = load_spec(SPEC, Some("./mycli-dev")).expect("the spec parses");
    assert_eq!(spec.bin, "./mycli-dev");
    assert_eq!(spec.name, "My CLI");
    assert_eq!(spec.cmd.name, "mycli");
}

#[test]
fn test_load_spec_names_root_after_name_without_bin() {
    let spec = load_spec("name \"tool\"\ncmd \"run\"\n", None).expect("the spec parses");
    assert_eq!(spec.bin, "");
    assert_eq!(spec.cmd.name, "tool");
}

#[test]
fn test_load_spec_reports_parse_errors() {
    assert!(load_spec("cmd \"unclosed {", None).is_err());
    assert!(load_spec("nonsense_key 1\n", None).is_err());
}

#[test]
fn test_with_bin_override() {
    let spec = load_spec(SPEC, None).unwrap();
    let same = with_bin_override(spec, None);
    assert_eq!(same.bin, "mycli");
    let other = with_bin_override(same, Some("other"));
    assert_eq!(other.bin, "other");
    assert_eq!(other.cmd.name, "mycli");
}
