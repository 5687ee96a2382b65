use clap_config_fallback::arg::ArgValue;
use clap_config_fallback::command::CommandConfig;
use clap_config_fallback::opts::{FieldValue, OptsField, OptsRecord};
use clap_config_fallback::parse::{final_args, plan_config_load, resolve_fallback, ErrorKind};
use clap_config_fallback::source::ConfigFormat;

fn text(s: &str) -> String {
    s.to_string()
}

fn field(key: &str, flag: Option<&str>, value: Option<ArgValue>) -> OptsField {
    OptsField { key: text(key), flag: flag.map(text), value: value.map(FieldValue::Arg) }
}

fn scalar(s: &str) -> Option<ArgValue> {
    Some(ArgValue::Scalar(text(s)))
}

/// `Cli { name, --threads, --debug, --config-path }`.
fn cli(name: Option<&str>, threads: Option<&str>, debug: Option<bool>, path: Option<&str>) -> OptsRecord {
    OptsRecord {
        fields: vec![
            field("name", None, name.and_then(scalar)),
            field("threads", Some("--threads"), threads.and_then(scalar)),
            field("debug", Some("--debug"), debug.map(ArgValue::Flag)),
            field("config_path", Some("--config-path"), path.and_then(scalar)),
        ],
    }
}

fn config(name: &str, threads: &str, debug: bool) -> OptsRecord {
    OptsRecord {
        fields: vec![
            field("name", None, scalar(name)),
            field("threads", None, scalar(threads)),
            field("debug", None, Some(ArgValue::Flag(debug))),
        ],
    }
}

#[test]
fn uses_config_values_when_cli_omits_them() {
    let merged = resolve_fallback(
        cli(None, None, None, Some("config.toml")),
        None,
        Some(config("from-config", "4", true)),
        CommandConfig::default(),
    )
    .unwrap();

    let args = final_args(text("bin"), merged);

    assert_eq!(args, ["bin", "from-config", "--threads", "4", "--debug", "--config-path", "config.toml"]);
}

#[test]
fn cli_overrides_config_values() {
    let merged = resolve_fallback(
        cli(Some("from-cli"), Some("8"), Some(true), Some("config.toml")),
        None,
        Some(config("from-config", "2", false)),
        CommandConfig::default(),
    )
    .unwrap();

    let args = final_args(text("bin"), merged);

    assert_eq!(args, ["bin", "from-cli", "--threads", "8", "--debug", "--config-path", "config.toml"]);
}

#[test]
fn missing_config_file_is_reported_as_io_error() {
    let err = plan_config_load(Some("missing.toml"), false, Some(ConfigFormat::Toml)).unwrap_err();

    assert_eq!(err.kind, ErrorKind::Io);
    assert_eq!(err.message, "configuration file not found");
}

#[test]
fn unsupported_config_file_is_reported_as_invalid_value() {
    let err = plan_config_load(Some("config.ini"), true, None).unwrap_err();

    assert_eq!(err.kind, ErrorKind::InvalidValue);
    assert_eq!(err.message, "unsupported configuration file");
}

#[test]
fn no_config_path_loads_nothing() {
    assert_eq!(plan_config_load(None, false, None).ok(), Some(None));
    assert_eq!(plan_config_load(Some("c.yaml"), true, Some(ConfigFormat::Yaml)).ok(), Some(Some(ConfigFormat::Yaml)));
}

#[test]
fn without_config_the_cli_arguments_are_rebuilt_unchanged() {
    let merged = resolve_fallback(cli(Some("x"), Some("1"), None, None), None, None, CommandConfig::default()).unwrap();

    assert_eq!(final_args(text("bin"), merged), ["bin", "x", "--threads", "1"]);
}
