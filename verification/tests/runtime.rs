
use clap_config_fallback::arg::{Arg, ArgValue, IntoArgs};
use clap_config_fallback::command::{BodyShape, CommandConfig, CommandEntry, EntryValue, FieldSpec, VariantSpec};
use clap_config_fallback::format::{CustomFormat, DefaultFormat, FormatArg};
use clap_config_fallback::input;
use clap_config_fallback::opts::{merge_records, CommandOpts, FieldValue, OptsField, OptsRecord};
use clap_config_fallback::parse::{answered_by_clap, final_args, help_or_version, invalid_config, resolve_fallback, ErrorKind};
use clap_config_fallback::source::{config_format, effective_format, format_by_suffix, format_for_extension, ConfigFormat};
use clap_config_fallback::text::{ends_with, join2, starts_with, str_eq};

fn text(s: &str) -> String {
    s.to_string()
}

fn field(key: &str, flag: Option<&str>, value: Option<ArgValue>) -> OptsField {
    OptsField { key: text(key), flag: flag.map(text), value: value.map(FieldValue::Arg) }
}

#[test]
fn formats_value_with_custom_formatter() {
    let arg = Arg::scalar(text("1min")).name(text("--interval"));
    let minutes_to_seconds = |v: String| {
        let minutes: u64 = v.trim_end_matches("min").parse().unwrap();
        format!("{}s", minutes * 60)
    };
    assert_eq!(arg.value_format(minutes_to_seconds).into_args(), ["--interval", "60s"]);
}

#[test]
fn value_format_applies_to_every_repeated_value() {
    let arg = Arg::repeated(vec![text("a"), text("b")]).name(text("-o"));
    assert_eq!(arg.value_format(|v: String| v.to_uppercase()).into_args(), ["-o", "A", "-o", "B"]);
    assert_eq!(Arg::flag(true).name(text("--x")).value_format(|v: String| v).into_args(), ["--x"]);
}

#[test]
fn vec_is_parsed_from_config() {
    let cli = OptsRecord {
        fields: vec![
            field("positional", None, None),
            field("comma_separated", Some("-c"), None),
            field("optional", Some("-o"), None),
        ],
    };
    let cfg = OptsRecord {
        fields: vec![
            field("positional", None, Some(ArgValue::Repeated(vec![text("a"), text("b"), text("c")]))),
            field("comma_separated", None, Some(ArgValue::Repeated(vec![text("a"), text("b"), text("c")]))),
            field("optional", None, Some(ArgValue::Repeated(vec![text("a"), text("b")]))),
        ],
    };
    let merged = merge_records(cli, &cfg);
    assert_eq!(
        merged.into_args(),
        ["a", "b", "c", "-c", "a", "-c", "b", "-c", "c", "-o", "a", "-o", "b"]
    );
}

#[test]
fn arguments_of_each_kind() {
    assert_eq!(Arg::scalar(text("v")).into_args(), ["v"]);
    assert_eq!(Arg::scalar(text("v")).name(text("--n")).into_args(), ["--n", "v"]);
    assert_eq!(Arg::repeated(vec![text("a"), text("b")]).into_args(), ["a", "b"]);
    assert!(Arg::flag(false).name(text("--f")).into_args().is_empty());
    assert!(Arg::flag(true).into_args().is_empty());
    assert_eq!(Some(Arg::flag(true).name(text("--f"))).into_args(), ["--f"]);
    assert!(None::<Arg>.into_args().is_empty());
    let mut args = vec![text("bin")];
    Arg::scalar(text("x")).name(text("-y")).extend_args(&mut args);
    assert_eq!(args, ["bin", "-y", "x"]);
}

#[test]
fn positional_bool_is_rendered_as_a_value() {
    let record = OptsRecord { fields: vec![field("on", None, Some(ArgValue::Flag(false)))] };
    assert_eq!(record.into_args(), ["false"]);
}

#[test]
fn formatters() {
    assert_eq!(DefaultFormat.format(text("x")), "x");
    assert_eq!(CustomFormat(|v: String| format!("<{v}>")).format(text("x")), "<x>");
}

#[test]
fn formats_are_inferred_from_the_extension() {
    assert_eq!(config_format(Some("config.toml")), Some(ConfigFormat::Toml));
    assert_eq!(config_format(Some("dir/config.yaml")), Some(ConfigFormat::Yaml));
    assert_eq!(config_format(Some("config.yml")), Some(ConfigFormat::Yaml));
    assert_eq!(config_format(Some("config.json")), Some(ConfigFormat::Json));
    assert_eq!(config_format(Some("config.ini")), None);
    assert_eq!(config_format(Some(".toml")), None);
    assert_eq!(config_format(None), None);
    assert_eq!(format_for_extension("yml"), Some(ConfigFormat::Yaml));
    assert_eq!(format_by_suffix("a.json"), Some(ConfigFormat::Json));
    assert_eq!(format_by_suffix("a.txt"), None);
}

#[test]
fn forced_format_wins_over_the_extension() {
    assert_eq!(effective_format(Some(input::ConfigFormat::Json), Some("config.toml")), Some(ConfigFormat::Json));
    assert_eq!(effective_format(Some(input::ConfigFormat::Auto), Some("config.toml")), Some(ConfigFormat::Toml));
    assert_eq!(effective_format(None, Some("config")), None);
}

#[test]
fn help_and_version_are_left_to_clap() {
    assert!(help_or_version("--help"));
    assert!(help_or_version("-h"));
    assert!(help_or_version("--version"));
    assert!(help_or_version("-V"));
    assert!(!help_or_version("-v"));
    assert!(answered_by_clap(&vec![text("bin"), text("run"), text("-h")]));
    assert!(!answered_by_clap(&vec![text("bin"), text("--config-path"), text("c.toml")]));
}

#[test]
fn invalid_configuration_message() {
    let e = invalid_config("missing field `name`");
    assert_eq!(e.kind, ErrorKind::InvalidValue);
    assert_eq!(e.message, "invalid configuration file: missing field `name`");
}

#[test]
fn text_helpers() {
    assert!(str_eq("abc", "abc"));
    assert!(!str_eq("abc", "abd"));
    assert!(starts_with("default_value", "default"));
    assert!(!starts_with("def", "default"));
    assert!(ends_with("a.toml", ".toml"));
    assert!(!ends_with("toml", ".toml"));
    assert_eq!(join2("Cli", "Opts"), "CliOpts");
}

fn run_spec() -> Vec<VariantSpec> {
    vec![VariantSpec {
        ident: text("Run"),
        config_name: text("run"),
        cli_name: text("run"),
        shape: BodyShape::Newtype,
        fields: vec![FieldSpec { key: text("fast"), flag: Some(text("--fast")) }],
    }]
}

#[test]
fn command_is_resolved_apart_and_put_back() {
    let opts = OptsRecord {
        fields: vec![
            field("name", Some("--name"), None),
            OptsField {
                key: text("command"),
                flag: None,
                value: Some(FieldValue::Command(CommandOpts {
                    variant: text("Run"),
                    cli_name: text("run"),
                    body: OptsRecord { fields: vec![field("fast", Some("--fast"), None)] },
                })),
            },
        ],
    };
    let config = OptsRecord { fields: vec![field("name", None, Some(ArgValue::Scalar(text("cfg"))))] };
    let commands = CommandConfig {
        variants: run_spec(),
        entries: vec![CommandEntry {
            name: text("run"),
            value: EntryValue::Record(OptsRecord { fields: vec![field("fast", None, Some(ArgValue::Flag(true)))] }),
        }],
        fallback_command: None,
    };
    let merged = resolve_fallback(opts, Some(&text("command")), Some(config), commands).unwrap();
    assert_eq!(final_args(text("bin"), merged), ["bin", "--name", "cfg", "run", "--fast"]);
}

#[test]
fn command_error_is_an_invalid_value() {
    let opts = OptsRecord { fields: vec![OptsField { key: text("command"), flag: None, value: None }] };
    let commands = CommandConfig { variants: run_spec(), entries: vec![], fallback_command: Some(text("deploy")) };
    let err = resolve_fallback(opts, Some(&text("command")), None, commands).unwrap_err();
    assert_eq!(err.kind, ErrorKind::InvalidValue);
    assert_eq!(err.message, "unknown fallback command: deploy");
}

#[test]
fn take_then_put_restores_the_command() {
    let mut record = OptsRecord {
        fields: vec![OptsField {
            key: text("command"),
            flag: None,
            value: Some(FieldValue::Command(CommandOpts {
                variant: text("Run"),
                cli_name: text("run"),
                body: OptsRecord { fields: vec![] },
            })),
        }],
    };
    let taken = record.take_command(&text("command")).unwrap();
    assert!(record.fields[0].value.is_none());
    assert!(record.take_command(&text("command")).is_none());
    record.put_command(&text("command"), Some(taken));
    assert_eq!(record.into_args(), ["run"]);
}

#[test]
fn merging_twice_changes_nothing() {
    let cli = OptsRecord { fields: vec![field("a", Some("-a"), None), field("b", Some("-b"), Some(ArgValue::Scalar(text("cli"))))] };
    let cfg = OptsRecord { fields: vec![field("a", None, Some(ArgValue::Scalar(text("cfg")))), field("b", None, Some(ArgValue::Scalar(text("cfg"))))] };
    let once = merge_records(cli, &cfg);
    let once_args = OptsRecord { fields: once.fields.iter().map(|f| OptsField { key: f.key.clone(), flag: f.flag.clone(), value: match &f.value { Some(FieldValue::Arg(v)) => Some(FieldValue::Arg(v.duplicate())), _ => None } }).collect() }.into_args();
    let twice = merge_records(once, &cfg);
    assert_eq!(once_args, ["-a", "cfg", "-b", "cli"]);
    assert_eq!(twice.into_args(), once_args);
}

#[test]
fn empty_config_keeps_the_cli_values() {
    let cli = OptsRecord { fields: vec![field("a", Some("-a"), None), field("b", Some("-b"), Some(ArgValue::Scalar(text("x"))))] };
    let merged = merge_records(cli, &OptsRecord { fields: vec![] });
    assert!(merged.fields[0].value.is_none());
    assert_eq!(merged.into_args(), ["-b", "x"]);
}

#[test]
fn untouched_sections_stay_absent() {
    assert!(OptsRecord::from_fields(vec![field("a", None, None)]).is_none());
    assert!(OptsRecord::from_fields(vec![]).is_none());
    assert!(OptsRecord::from_fields(vec![field("a", None, Some(ArgValue::Flag(true)))]).is_some());
}

#[test]
fn without_config_the_command_line_is_kept() {
    let opts = || OptsRecord {
        fields: vec![
            field("name", Some("--name"), Some(ArgValue::Scalar(text("cli")))),
            field("port", Some("--port"), None),
            OptsField {
                key: text("command"),
                flag: None,
                value: Some(FieldValue::Command(CommandOpts {
                    variant: text("Run"),
                    cli_name: text("run"),
                    body: OptsRecord { fields: vec![field("fast", Some("--fast"), Some(ArgValue::Flag(true)))] },
                })),
            },
        ],
    };
    let merged = resolve_fallback(opts(), Some(&text("command")), None, CommandConfig::default()).unwrap();
    assert_eq!(merged.into_args(), opts().into_args());
    assert_eq!(
        final_args(text("bin"), resolve_fallback(opts(), Some(&text("command")), None, CommandConfig::default()).unwrap()),
        ["bin", "--name", "cli", "run", "--fast"]
    );
}
