use clap_config_fallback::arg::{ArgValue, IntoArgs};
use clap_config_fallback::clap_attr::{AttributeModel, Sanitized};
use clap_config_fallback::generator::sanitized_clap_attrs;
use clap_config_fallback::input::{ConfigPrecedence, Field};
use clap_config_fallback::opts::{merge_records, FieldValue, OptsField, OptsRecord};
use clap_config_fallback::types::{ExprModel, PathArguments, PathModel, PathSegment, TypeModel};

fn text(s: &str) -> String {
    s.to_string()
}

fn path(ident: &str) -> PathModel {
    PathModel { leading_colon: false, segments: vec![PathSegment { ident: text(ident), arguments: PathArguments::Bare }] }
}

fn arg_attr(settings: &[(&str, bool)]) -> AttributeModel {
    AttributeModel {
        path: path("arg"),
        args: Some(
            settings
                .iter()
                .map(|(name, assigned)| {
                    if *assigned {
                        ExprModel::Assign { left: Box::new(ExprModel::Path(path(name))) }
                    } else {
                        ExprModel::Path(path(name))
                    }
                })
                .collect(),
        ),
    }
}

fn field(name: &str, attr: AttributeModel, precedence: ConfigPrecedence) -> Field {
    Field {
        ident: Some(text(name)),
        ty: TypeModel::Path(path("String")),
        attrs: vec![attr],
        args: vec![],
        commands: vec![],
        skip: false,
        path: false,
        format: None,
        value_format: None,
        precedence,
        no_flatten: false,
        aliases: vec![],
    }
}

fn kept(f: &Field) -> Vec<usize> {
    match sanitized_clap_attrs(f).remove(0) {
        Sanitized::Arg(kept) => kept,
        Sanitized::Unchanged => panic!("an `arg` list is rewritten"),
    }
}

fn scalar_field(key: &str, flag: Option<&str>, value: Option<&str>) -> OptsField {
    OptsField {
        key: text(key),
        flag: flag.map(text),
        value: value.map(|v| FieldValue::Arg(ArgValue::Scalar(text(v)))),
    }
}

#[test]
fn denied_default_value_does_not_override_config_value() {
    // #[arg(long, default_value = "default-from-clap")] mode: String
    let mode = field("mode", arg_attr(&[("long", false), ("default_value", true)]), ConfigPrecedence::BeforeDefault);
    assert_eq!(kept(&mode), [0]);

    let cli = OptsRecord { fields: vec![scalar_field("value", Some("--value"), Some("explicit")), scalar_field("mode", Some("--mode"), None)] };
    let cfg = OptsRecord { fields: vec![scalar_field("mode", None, Some("configured-mode"))] };
    assert_eq!(merge_records(cli, &cfg).into_args(), ["--value", "explicit", "--mode", "configured-mode"]);
}

#[test]
fn denied_required_arg_can_be_satisfied_by_config() {
    // #[arg(long, required = true)] value, #[arg(long, requires = "username")] token
    let value = field("value", arg_attr(&[("long", false), ("required", true)]), ConfigPrecedence::BeforeDefault);
    assert_eq!(kept(&value), [0]);
    let token = field("token", arg_attr(&[("long", false), ("requires", true)]), ConfigPrecedence::BeforeDefault);
    assert_eq!(kept(&token), [0]);
    let username = field("username", arg_attr(&[("long", false), ("requires_all", true)]), ConfigPrecedence::BeforeDefault);
    assert_eq!(kept(&username), [0]);

    let cli = OptsRecord {
        fields: vec![
            scalar_field("value", Some("--value"), None),
            scalar_field("token", Some("--token"), None),
            scalar_field("username", Some("--username"), None),
        ],
    };
    let cfg = OptsRecord {
        fields: vec![
            scalar_field("value", None, Some("configured")),
            scalar_field("token", None, Some("abc")),
            scalar_field("username", None, Some("user")),
        ],
    };
    assert_eq!(
        merge_records(cli, &cfg).into_args(),
        ["--value", "configured", "--token", "abc", "--username", "user"]
    );
}

#[test]
fn conflicts_are_removed_from_the_intermediate_struct() {
    // #[arg(long, conflicts_with = "right")] left: bool
    let left = field("left", arg_attr(&[("long", false), ("conflicts_with", true)]), ConfigPrecedence::AfterDefault);
    assert_eq!(kept(&left), [0]);
    // #[arg(long, env = "TEST_SIZE")] size, under before_env
    let size = field("size", arg_attr(&[("long", false), ("env", true)]), ConfigPrecedence::BeforeEnv);
    assert_eq!(kept(&size), [0]);
    let size = field("size", arg_attr(&[("long", false), ("env", true)]), ConfigPrecedence::BeforeDefault);
    assert_eq!(kept(&size), [0, 1]);
}

#[test]
fn path_field_keeps_its_default() {
    let config_path = Field {
        path: true,
        ..field("config_path", arg_attr(&[("long", false), ("default_value", true)]), ConfigPrecedence::BeforeDefault)
    };
    assert_eq!(kept(&config_path), [0, 1]);
}
