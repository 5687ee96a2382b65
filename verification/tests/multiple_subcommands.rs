use clap_config_fallback::arg::ArgValue;
use clap_config_fallback::command::{
    BodyShape, CommandConfig, CommandEntry, EntryValue, FieldSpec, MergeCommand, VariantSpec,
};
use clap_config_fallback::opts::{CommandOpts, FieldValue, OptsField, OptsRecord};

fn text(s: &str) -> String {
    s.to_string()
}

fn variant(name: &str, fields: Vec<(&str, &str)>) -> VariantSpec {
    let mut ident = name.to_string();
    ident[..1].make_ascii_uppercase();
    VariantSpec {
        ident,
        config_name: text(name),
        cli_name: text(name),
        shape: BodyShape::Newtype,
        fields: fields
            .into_iter()
            .map(|(k, f)| FieldSpec { key: text(k), flag: Some(text(f)) })
            .collect(),
    }
}

fn opt(key: &str, flag: &str, value: Option<ArgValue>) -> OptsField {
    OptsField { key: text(key), flag: Some(text(flag)), value: value.map(FieldValue::Arg) }
}

/// The configuration: `[command.build] target`, `[command.run] extra_flag`,
/// `[command.debug] verbose, timeout`.
fn config() -> CommandConfig {
    CommandConfig {
        variants: vec![
            variant("build", vec![("target", "--target")]),
            variant("run", vec![("extra_flag", "--extra-flag")]),
            variant("debug", vec![("verbose", "--verbose"), ("timeout", "-t")]),
        ],
        entries: vec![
            CommandEntry {
                name: text("build"),
                value: EntryValue::Record(OptsRecord { fields: vec![opt("target", "--target", Some(ArgValue::Scalar(text("x86_64"))))] }),
            },
            CommandEntry {
                name: text("run"),
                value: EntryValue::Record(OptsRecord { fields: vec![opt("extra_flag", "--extra-flag", Some(ArgValue::Flag(true)))] }),
            },
            CommandEntry {
                name: text("debug"),
                value: EntryValue::Record(OptsRecord {
                    fields: vec![
                        opt("verbose", "--verbose", Some(ArgValue::Flag(true))),
                        opt("timeout", "-t", Some(ArgValue::Scalar(text("30s")))),
                    ],
                }),
            },
        ],
        fallback_command: None,
    }
}

fn value(c: &CommandOpts, i: usize) -> Option<&ArgValue> {
    match &c.body.fields[i].value {
        Some(FieldValue::Arg(v)) => Some(v),
        _ => None,
    }
}

#[test]
fn no_cli_command_with_multi_command_config_should_error() {
    assert!(config().merge_command(None).is_err());
}

#[test]
fn cli_run_gets_config_fallback_for_run() {
    let cli = CommandOpts {
        variant: text("Run"),
        cli_name: text("run"),
        body: OptsRecord { fields: vec![opt("extra_flag", "--extra-flag", None)] },
    };

    let cmd = config().merge_command(Some(cli)).unwrap().unwrap();

    assert_eq!(cmd.variant, "Run");
    assert!(matches!(value(&cmd, 0), Some(ArgValue::Flag(true))));
}

#[test]
fn cli_run_explicit_flag_overrides_config_fallback() {
    let cli = CommandOpts {
        variant: text("Run"),
        cli_name: text("run"),
        body: OptsRecord { fields: vec![opt("extra_flag", "--extra-flag", Some(ArgValue::Flag(true)))] },
    };

    let cmd = config().merge_command(Some(cli)).unwrap().unwrap();

    assert!(matches!(value(&cmd, 0), Some(ArgValue::Flag(true))));
}

#[test]
fn cli_debug_explicit_flag_with_multi_command_config() {
    let cli = CommandOpts {
        variant: text("Debug"),
        cli_name: text("debug"),
        body: OptsRecord {
            fields: vec![opt("verbose", "--verbose", Some(ArgValue::Flag(true))), opt("timeout", "-t", None)],
        },
    };

    let cmd = config().merge_command(Some(cli)).unwrap().unwrap();

    assert_eq!(cmd.variant, "Debug");
    assert!(matches!(value(&cmd, 0), Some(ArgValue::Flag(true))));
    assert!(matches!(value(&cmd, 1), Some(ArgValue::Scalar(s)) if s == "30s"));
}
