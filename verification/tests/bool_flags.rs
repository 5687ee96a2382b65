use clap_config_fallback::arg::{ArgValue, IntoArgs};
use clap_config_fallback::opts::{merge_records, FieldValue, OptsField, OptsRecord};

fn text(s: &str) -> String {
    s.to_string()
}

/// `Cli { --debug: bool, -v/--verbose: Option<bool>, --config-path }`.
fn cli(debug: Option<bool>, verbose: Option<&str>) -> OptsRecord {
    OptsRecord {
        fields: vec![
            OptsField { key: text("debug"), flag: Some(text("--debug")), value: debug.map(|b| FieldValue::Arg(ArgValue::Flag(b))) },
            OptsField {
                key: text("verbose"),
                flag: Some(text("-v")),
                value: verbose.map(|v| FieldValue::Arg(ArgValue::Scalar(text(v)))),
            },
        ],
    }
}

fn config(fields: Vec<(&str, ArgValue)>) -> OptsRecord {
    OptsRecord {
        fields: fields
            .into_iter()
            .map(|(k, v)| OptsField { key: text(k), flag: None, value: Some(FieldValue::Arg(v)) })
            .collect(),
    }
}

#[test]
fn bool_flag_can_be_enabled_from_config() {
    let merged = merge_records(cli(None, None), &config(vec![("debug", ArgValue::Flag(true))]));

    assert_eq!(merged.into_args(), ["--debug"]);
}

#[test]
fn bool_flag_from_cli_overrides_false_config() {
    let merged = merge_records(cli(Some(true), None), &config(vec![("debug", ArgValue::Flag(false))]));

    assert_eq!(merged.into_args(), ["--debug"]);
}

#[test]
fn bool_flag_missing_from_cli_and_config_falls_back_to_false() {
    let merged = merge_records(cli(None, None), &config(vec![]));

    assert!(merged.into_args().is_empty());
}

#[test]
fn optional_bool_can_be_enabled_from_config() {
    let merged = merge_records(cli(None, None), &config(vec![("verbose", ArgValue::Scalar(text("true")))]));

    assert_eq!(merged.into_args(), ["-v", "true"]);
}

#[test]
fn optional_bool_is_parsed_from_cli() {
    let merged = merge_records(cli(None, Some("true")), &config(vec![]));

    assert_eq!(merged.into_args(), ["-v", "true"]);
}

#[test]
fn false_flag_from_config_adds_no_argument() {
    let merged = merge_records(cli(None, None), &config(vec![("debug", ArgValue::Flag(false))]));

    assert!(merged.into_args().is_empty());
}
