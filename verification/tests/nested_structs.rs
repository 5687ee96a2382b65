use clap_config_fallback::arg::{ArgValue, IntoArgs};
use clap_config_fallback::opts::{merge_records, FieldValue, OptsField, OptsRecord};

fn text(s: &str) -> String {
    s.to_string()
}

fn field(key: &str, flag: &str, value: Option<&str>) -> OptsField {
    OptsField {
        key: text(key),
        flag: Some(text(flag)),
        value: value.map(|v| FieldValue::Arg(ArgValue::Scalar(text(v)))),
    }
}

/// `Cli { #[command(flatten)] logging: LoggingArgs { --level, --interval-secs }, --profile }`.
fn cli(level: Option<&str>, interval: Option<&str>, profile: Option<&str>) -> OptsRecord {
    OptsRecord {
        fields: vec![
            field("level", "--level", level),
            field("interval_secs", "--interval-secs", interval),
            field("profile", "--profile", profile),
        ],
    }
}

#[test]
fn nested_structs_nested_fields_can_be_loaded_from_config() {
    let merged = merge_records(cli(None, None, None), &cli(Some("warn"), Some("30"), Some("prod")));

    assert_eq!(merged.into_args(), ["--level", "warn", "--interval-secs", "30", "--profile", "prod"]);
}

#[test]
fn nested_cli_values_override_nested_config() {
    let merged = merge_records(cli(Some("error"), Some("10"), Some("dev")), &cli(Some("warn"), Some("30"), Some("prod")));

    assert_eq!(merged.into_args(), ["--level", "error", "--interval-secs", "10", "--profile", "dev"]);
}

#[test]
fn data_visibility_nested_fields_can_be_loaded_from_config() {
    let cli = OptsRecord {
        fields: vec![
            OptsField { key: text("args.debug"), flag: Some(text("--debug")), value: None },
            field("args.level", "--level", None),
        ],
    };
    let cfg = OptsRecord {
        fields: vec![
            field("args.level", "--level", Some("warn")),
            OptsField { key: text("args.debug"), flag: None, value: Some(FieldValue::Arg(ArgValue::Flag(true))) },
        ],
    };

    let merged = merge_records(cli, &cfg);

    assert_eq!(merged.into_args(), ["--debug", "--level", "warn"]);
}
