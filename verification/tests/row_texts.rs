use tuisage::execution::program_and_args;
use tuisage::row_text::{
    arg_choices_hint, arg_label, arg_slot, decimal_string, flag_marker, flag_slot, join_with_bars,
    shows_default_mark, MarkerKind, SlotKind,
};
use tuisage::spec_model::{FlagArgSpec, FlagSpec};
use tuisage::values::{ArgValue, FlagValue};

fn value_flag(choices: Option<Vec<&str>>, default: Option<&str>) -> FlagSpec {
    FlagSpec {
        name: "tag".to_string(),
        help: None,
        short: Vec::new(),
        long: vec!["tag".to_string()],
        required: false,
        hide: false,
        global: false,
        count: false,
        arg: Some(FlagArgSpec {
            name: "TAG".to_string(),
            choices: choices.map(|cs| cs.iter().map(|c| c.to_string()).collect()),
        }),
        default: default.iter().map(|d| d.to_string()).collect(),
        negate: None,
    }
}

fn arg_value(required: bool, value: &str, choices: &[&str]) -> ArgValue {
    ArgValue {
        name: "env".to_string(),
        value: value.to_string(),
        required,
        choices: choices.iter().map(|c| c.to_string()).collect(),
        help: None,
    }
}

#[test]
fn test_decimal_string_and_bars() {
    assert_eq!(decimal_string(0), "0");
    assert_eq!(decimal_string(7), "7");
    assert_eq!(decimal_string(120), "120");
    assert_eq!(decimal_string(u32::MAX), "4294967295");
    assert_eq!(join_with_bars(&vec!["a".to_string(), "b".to_string(), "c".to_string()]), "a|b|c");
    assert_eq!(join_with_bars(&Vec::new()), "");
}

#[test]
fn test_flag_markers() {
    assert_eq!(flag_marker(Some(&FlagValue::Bool(true))), ("✓ ".to_string(), MarkerKind::On));
    assert_eq!(flag_marker(Some(&FlagValue::Bool(false))), ("○ ".to_string(), MarkerKind::Off));
    assert_eq!(flag_marker(Some(&FlagValue::NegBool(Some(false)))), ("✗ ".to_string(), MarkerKind::Negated));
    assert_eq!(flag_marker(Some(&FlagValue::Count(3))), ("[3] ".to_string(), MarkerKind::Count));
    assert_eq!(flag_marker(Some(&FlagValue::Count(12))), ("[12] ".to_string(), MarkerKind::Count));
    assert_eq!(flag_marker(Some(&FlagValue::Count(0))), ("[0] ".to_string(), MarkerKind::ZeroCount));
    assert_eq!(flag_marker(Some(&FlagValue::String(String::new()))), ("[·] ".to_string(), MarkerKind::Empty));
    assert_eq!(flag_marker(Some(&FlagValue::String("x".to_string()))), ("[•] ".to_string(), MarkerKind::Filled));
    assert_eq!(flag_marker(None), ("○ ".to_string(), MarkerKind::Off));
}

#[test]
fn test_flag_slots() {
    let with_choices = value_flag(Some(vec!["basic", "full"]), Some("basic"));
    assert_eq!(flag_slot(&with_choices, ""), Some(("<basic|full>".to_string(), SlotKind::Choices)));
    assert_eq!(flag_slot(&with_choices, "full"), Some(("full".to_string(), SlotKind::Value)));
    assert!(shows_default_mark(&with_choices, "basic"));
    assert!(!shows_default_mark(&with_choices, "full"));
    let plain = value_flag(None, None);
    assert_eq!(flag_slot(&plain, ""), Some(("<TAG>".to_string(), SlotKind::Placeholder)));
    assert!(!shows_default_mark(&plain, ""));
    let mut switch = value_flag(None, None);
    switch.arg = None;
    assert_eq!(flag_slot(&switch, ""), None);
}

#[test]
fn test_arg_texts() {
    assert_eq!(arg_label(&arg_value(true, "", &[])), "<env>");
    assert_eq!(arg_label(&arg_value(false, "", &[])), "[env]");
    assert_eq!(arg_slot(&arg_value(true, "", &[])), ("(empty)".to_string(), SlotKind::Placeholder));
    assert_eq!(arg_slot(&arg_value(true, "", &["dev", "prod"])), ("<dev|prod>".to_string(), SlotKind::Choices));
    assert_eq!(arg_slot(&arg_value(true, "prod", &["dev", "prod"])), ("prod".to_string(), SlotKind::Value));
    assert_eq!(arg_choices_hint(&arg_value(true, "prod", &["dev", "prod"])), Some(" [dev|prod]".to_string()));
    assert_eq!(arg_choices_hint(&arg_value(true, "", &["dev", "prod"])), None);
    assert_eq!(arg_choices_hint(&arg_value(true, "x", &[])), None);
}

#[test]
fn test_program_and_args_splits_parts() {
    assert_eq!(program_and_args(&Vec::new()), None);
    let parts = vec!["mise".to_string(), "run".to_string(), "build".to_string()];
    assert_eq!(program_and_args(&parts), Some(("mise".to_string(), vec!["run".to_string(), "build".to_string()])));
    assert_eq!(program_and_args(&vec!["ls".to_string()]), Some(("ls".to_string(), Vec::new())));
}
