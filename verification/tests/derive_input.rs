use clap_config_fallback::clap_attr::{AttributeModel, ClapArg, ClapCommand, Override, Sanitized};
use clap_config_fallback::generator::{denied_args, GenerationTarget};
use clap_config_fallback::input::{
    ConfigFormat, ConfigParser, ConfigPrecedence, ConfigSubcommand, EnumLike, Field, Fields,
    NamedField, Skippable, StructLike, Style, Variant,
};
use clap_config_fallback::types::{ExprModel, GenericArg, PathArguments, PathModel, PathSegment, TypeModel};

fn text(s: &str) -> String {
    s.to_string()
}

fn seg(ident: &str, arguments: PathArguments) -> PathSegment {
    PathSegment { ident: text(ident), arguments }
}

fn path(idents: &[&str]) -> PathModel {
    PathModel { leading_colon: false, segments: idents.iter().map(|i| seg(i, PathArguments::Bare)).collect() }
}

fn ty(ident: &str) -> TypeModel {
    TypeModel::Path(path(&[ident]))
}

fn generic(outer: &str, inner: TypeModel) -> TypeModel {
    TypeModel::Path(PathModel {
        leading_colon: false,
        segments: vec![seg(outer, PathArguments::AngleBracketed(vec![GenericArg::Type(inner)]))],
    })
}

fn ident_expr(s: &str) -> ExprModel {
    ExprModel::Path(path(&[s]))
}

fn assign(s: &str) -> ExprModel {
    ExprModel::Assign { left: Box::new(ident_expr(s)) }
}

fn field(name: Option<&str>, t: TypeModel) -> Field {
    Field {
        ident: name.map(text),
        ty: t,
        attrs: vec![],
        args: vec![],
        commands: vec![],
        skip: false,
        path: false,
        format: None,
        value_format: None,
        precedence: ConfigPrecedence::default(),
        no_flatten: false,
        aliases: vec![],
    }
}

#[test]
fn type_shapes_are_recognized() {
    let opt_string = generic("Option", ty("String"));
    assert!(ty("bool").is("bool"));
    assert!(!ty("bool").is("Vec"));
    assert!(opt_string.is("Option"));
    assert!(opt_string.is_option_of("String"));
    assert!(!opt_string.is_option_of("PathBuf"));
    assert!(!ty("String").is_option_of("String"));
    assert!(opt_string.unwrap_option().is("String"));
    assert!(ty("u16").unwrap_option().is("u16"));
    assert!(TypeModel::Tuple(vec![]).is_unit());
    assert!(!TypeModel::Tuple(vec![ty("u8")]).is_unit());
    assert_eq!(TypeModel::Path(path(&["std", "path", "PathBuf"])).ident().map(|s| s.as_str()), Some("PathBuf"));
    assert!(TypeModel::Other.ident().is_none());
}

#[test]
fn to_option_wraps_only_what_is_not_optional() {
    let wrapped = ty("u16").to_option();
    assert!(wrapped.is_option_of("u16"));
    let kept = generic("Option", ty("String")).to_option();
    assert!(kept.is_option_of("String"));
    assert!(kept.unwrap_option().is("String"));
}

#[test]
fn expression_idents() {
    assert_eq!(ident_expr("long").ident().map(|s| s.as_str()), Some("long"));
    assert_eq!(assign("default_value").ident().map(|s| s.as_str()), Some("default_value"));
    let call = ExprModel::Call { func: Box::new(ident_expr("value_parser")) };
    assert_eq!(call.ident().map(|s| s.as_str()), Some("value_parser"));
    assert!(ExprModel::Path(path(&["clap", "ArgAction"])).ident().is_none());
    assert!(ExprModel::Other.ident().is_none());
    assert!(path(&["arg"]).is_ident("arg"));
    assert!(!PathModel { leading_colon: true, segments: vec![seg("arg", PathArguments::Bare)] }.is_ident("arg"));
}

#[test]
fn flag_names_prefer_short_over_long() {
    let both = ClapArg { short: Some(Override::Inherit), long: Some(Override::Inherit), ..ClapArg::default() };
    assert_eq!(both.flag_name("verbose").as_deref(), Some("-v"));

    let upper = ClapArg { short: Some(Override::Inherit), ..ClapArg::default() };
    assert_eq!(upper.flag_name("Verbose").as_deref(), Some("-v"));

    let explicit_short = ClapArg { short: Some(Override::Explicit('t')), long: Some(Override::Explicit(text("threads"))), ..ClapArg::default() };
    assert_eq!(explicit_short.flag_name("threads").as_deref(), Some("-t"));

    let long = ClapArg { long: Some(Override::Inherit), ..ClapArg::default() };
    assert_eq!(long.flag_name("interval_secs").as_deref(), Some("--interval-secs"));

    let explicit_long = ClapArg { long: Some(Override::Explicit(text("log-level"))), ..ClapArg::default() };
    assert_eq!(explicit_long.flag_name("log_level").as_deref(), Some("--log-level"));

    assert_eq!(ClapArg::default().flag_name("positional"), None);
    assert_eq!(upper.flag_name(""), None);
}

#[test]
fn aliases_come_after_the_alias_list() {
    let arg = ClapArg {
        alias: Some(text("verbosity")),
        aliases: Some(vec![text("log"), text("verbosity")]),
        ..ClapArg::default()
    };
    assert_eq!(arg.aliases(), ["log", "verbosity", "verbosity"]);
    assert!(ClapArg::default().aliases().is_empty());
}

#[test]
fn value_parser_and_default_value() {
    let arg = ClapArg {
        value_parser: Some(Ok(path(&["humantime", "parse_duration"]))),
        default_value: Some(text("80")),
        ..ClapArg::default()
    };
    assert!(arg.value_parser().is_some());
    assert_eq!(arg.default_value().map(|s| s.as_str()), Some("80"));
    let closure = ClapArg { value_parser: Some(Err(text("not a path"))), ..ClapArg::default() };
    assert!(closure.value_parser().is_none());
}

#[test]
fn sanitize_drops_denied_settings() {
    // #[arg(long, default_value = "x", required = true, conflicts_with = "y", env = "E", <closure>)]
    let attr = AttributeModel {
        path: path(&["arg"]),
        args: Some(vec![
            ident_expr("long"),
            assign("default_value"),
            assign("required"),
            assign("conflicts_with"),
            assign("env"),
            ExprModel::Other,
        ]),
    };
    let denied = denied_args(ConfigPrecedence::BeforeDefault, false);
    match ClapArg::sanitize(&attr, denied.as_slice()) {
        Sanitized::Arg(kept) => assert_eq!(kept, [0, 4]),
        Sanitized::Unchanged => panic!("an `arg` list is rewritten"),
    }
    let denied = denied_args(ConfigPrecedence::BeforeEnv, false);
    match ClapArg::sanitize(&attr, denied.as_slice()) {
        Sanitized::Arg(kept) => assert_eq!(kept, [0]),
        Sanitized::Unchanged => panic!("an `arg` list is rewritten"),
    }
    let denied = denied_args(ConfigPrecedence::AfterDefault, false);
    match ClapArg::sanitize(&attr, denied.as_slice()) {
        Sanitized::Arg(kept) => assert_eq!(kept, [0, 1, 4]),
        Sanitized::Unchanged => panic!("an `arg` list is rewritten"),
    }
    let command = AttributeModel { path: path(&["command"]), args: Some(vec![ident_expr("flatten")]) };
    assert!(matches!(ClapArg::sanitize(&command, &["default"]), Sanitized::Unchanged));
    let unparsed = AttributeModel { path: path(&["arg"]), args: None };
    assert!(matches!(ClapArg::sanitize(&unparsed, &["default"]), Sanitized::Unchanged));
}

#[test]
fn denied_settings_follow_the_precedence() {
    assert_eq!(denied_args(ConfigPrecedence::AfterDefault, false), ["require", "conflicts", "exclusive"]);
    assert_eq!(denied_args(ConfigPrecedence::BeforeDefault, false), ["default", "require", "conflicts", "exclusive"]);
    assert_eq!(denied_args(ConfigPrecedence::BeforeEnv, false), ["default", "env", "require", "conflicts", "exclusive"]);
    assert_eq!(denied_args(ConfigPrecedence::BeforeEnv, true), ["require", "conflicts", "exclusive"]);
}

#[test]
fn path_field_types_are_checked() {
    for t in [ty("String"), generic("Option", ty("String")), ty("PathBuf"), generic("Option", ty("PathBuf"))] {
        let f = Field { path: true, ..field(Some("config_path"), t) };
        assert!(f.autocorrect().is_ok());
    }
    let f = Field { path: true, ..field(Some("config_path"), ty("u16")) };
    assert!(f.autocorrect().is_err());
    assert!(field(Some("port"), ty("u16")).autocorrect().is_ok());
}

#[test]
fn aliases_are_refused_on_fields_flattened_in_config() {
    let flattened = Field {
        commands: vec![ClapCommand::Flatten],
        aliases: vec![text("db")],
        ..field(Some("database"), ty("DatabaseArgs"))
    };
    assert_eq!(
        flattened.autocorrect().unwrap_err(),
        "`#[config(alias)]` and `#[config(aliases)]` are not allowed on fields flattened in config"
    );
    let section = Field {
        commands: vec![ClapCommand::Flatten],
        no_flatten: true,
        aliases: vec![text("db")],
        ..field(Some("database"), ty("DatabaseArgs"))
    };
    assert!(section.autocorrect().is_ok());
    let command = Field {
        commands: vec![ClapCommand::Subcommand],
        aliases: vec![text("cmd")],
        ..field(Some("command"), ty("Command"))
    };
    assert!(command.autocorrect().is_ok());
}

#[test]
fn named_fields_need_a_name() {
    assert!(NamedField::try_from(field(None, ty("u8"))).is_err());
    let named = NamedField::try_from(field(Some("port"), ty("u16"))).unwrap();
    assert_eq!(named.ident(), "port");
    assert!(!named.is_skipped());
}

#[test]
fn flatten_needs_no_no_flatten() {
    let flattened = Field { commands: vec![ClapCommand::Flatten], ..field(Some("db"), ty("DbArgs")) };
    assert!(flattened.flatten());
    let nested = Field { commands: vec![ClapCommand::Flatten], no_flatten: true, ..field(Some("db"), ty("DbArgs")) };
    assert!(!nested.flatten());
    let sub = Field { commands: vec![ClapCommand::Subcommand], ..field(Some("cmd"), ty("Command")) };
    assert!(!sub.flatten());
    assert!(sub.has_command(ClapCommand::Subcommand));
}

fn variant(name: &str, style: Style, fields: Vec<Field>) -> Variant {
    Variant { ident: text(name), fields: Fields { style, fields }, skip: false }
}

#[test]
fn variants_are_checked_and_corrected() {
    let run = variant("Run", Style::Tuple, vec![field(None, TypeModel::Tuple(vec![]))]).autocorrect().unwrap();
    assert!(run.is_unit());
    assert!(run.as_newtype().is_none());

    let build = variant("Build", Style::Tuple, vec![field(None, ty("BuildCommand"))]).autocorrect().unwrap();
    assert!(build.as_newtype().unwrap().is("BuildCommand"));

    let errors = variant("Pair", Style::Tuple, vec![field(None, ty("u8")), field(None, ty("u8"))]).autocorrect().unwrap_err();
    assert_eq!(errors, ["tuple enums are not supported"]);

    let debug = variant("Debug", Style::Struct, vec![field(Some("verbose"), ty("bool"))]).autocorrect().unwrap();
    assert_eq!(debug.as_struct().unwrap().len(), 1);
}

#[test]
fn skip_all_is_propagated() {
    let parser = ConfigParser {
        ident: text("Cli"),
        fields: vec![
            NamedField::try_from(field(Some("a"), ty("u8"))).unwrap(),
            NamedField::try_from(field(Some("b"), ty("u8"))).unwrap(),
        ],
        skip_all: true,
    };
    let parser = parser.autocorrect().unwrap();
    assert!(parser.fields().iter().all(|f| f.is_skipped()));
    assert_eq!(parser.ident(), "Cli");

    let sub = ConfigSubcommand {
        ident: text("Command"),
        variants: vec![variant("Run", Style::Unit, vec![])],
        skip_all: true,
        tag: Some(text("name")),
    };
    let sub = sub.autocorrect().unwrap();
    assert!(sub.variants()[0].is_skipped());
    assert_eq!(sub.tag().map(|s| s.as_str()), Some("name"));
    assert_eq!(ConfigFormat::default(), ConfigFormat::Auto);
    assert_eq!(ConfigPrecedence::default(), ConfigPrecedence::BeforeDefault);
}

#[test]
fn generation_targets() {
    let skipped = NamedField::try_from(Field { skip: true, ..field(Some("a"), ty("u8")) }).unwrap();
    assert_eq!(GenerationTarget::Opts.suffix(), "Opts");
    assert_eq!(GenerationTarget::Config.suffix(), "Config");
    assert_eq!(GenerationTarget::Config.suffix_ident(), "Config");
    assert!(!GenerationTarget::Opts.should_skip(&skipped));
    assert!(GenerationTarget::Config.should_skip(&skipped));
}
