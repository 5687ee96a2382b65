use clap_config_fallback::arg::ArgValue;
use clap_config_fallback::clap_attr::{ClapArg, Override};
use clap_config_fallback::command::{
    command_config, read_section, select_command, BodyShape, CommandConfig, CommandEntry,
    EntryValue, FieldSpec, MergeCommand, SectionLayout, SectionReading, SectionShape, VariantSpec,
};
use clap_config_fallback::generator::{variant_spec, EnumGenerator};
use clap_config_fallback::input::{ConfigPrecedence, ConfigSubcommand, Field, Fields, Style, Variant};
use clap_config_fallback::opts::{CommandOpts, FieldValue, OptsField, OptsRecord};
use clap_config_fallback::types::{PathArguments, PathModel, PathSegment, TypeModel};

fn text(s: &str) -> String {
    s.to_string()
}

fn spec_field(key: &str, flag: &str) -> FieldSpec {
    FieldSpec { key: text(key), flag: Some(text(flag)) }
}

/// The variants of `Command { Run(()), Build(BuildCommand), Debug { verbose, timeout }, Empty {},
/// #[config(skip)] Test }` that take part in fallback.
fn variants() -> Vec<VariantSpec> {
    vec![
        VariantSpec {
            ident: text("Run"),
            config_name: text("run"),
            cli_name: text("run"),
            shape: BodyShape::Unit,
            fields: vec![],
        },
        VariantSpec {
            ident: text("Build"),
            config_name: text("build"),
            cli_name: text("build"),
            shape: BodyShape::Newtype,
            fields: vec![spec_field("target", "--target")],
        },
        VariantSpec {
            ident: text("Debug"),
            config_name: text("debug"),
            cli_name: text("debug"),
            shape: BodyShape::Struct,
            fields: vec![spec_field("verbose", "--verbose"), spec_field("timeout", "-t")],
        },
        VariantSpec {
            ident: text("Empty"),
            config_name: text("empty"),
            cli_name: text("empty"),
            shape: BodyShape::Struct,
            fields: vec![],
        },
    ]
}

fn opt(key: &str, flag: &str, value: Option<ArgValue>) -> OptsField {
    OptsField { key: text(key), flag: Some(text(flag)), value: value.map(FieldValue::Arg) }
}

fn scalar(s: &str) -> Option<ArgValue> {
    Some(ArgValue::Scalar(text(s)))
}

fn entry(name: &str, fields: Vec<OptsField>) -> CommandEntry {
    CommandEntry { name: text(name), value: EntryValue::Record(OptsRecord { fields }) }
}

fn config(entries: Vec<CommandEntry>, fallback: Option<&str>) -> CommandConfig {
    CommandConfig { variants: variants(), entries, fallback_command: fallback.map(text) }
}

fn command(variant: &str, cli_name: &str, fields: Vec<OptsField>) -> CommandOpts {
    CommandOpts { variant: text(variant), cli_name: text(cli_name), body: OptsRecord { fields } }
}

fn build_cli(target: Option<&str>) -> CommandOpts {
    command("Build", "build", vec![opt("target", "--target", target.and_then(scalar))])
}

fn debug_cli(verbose: Option<bool>) -> CommandOpts {
    command(
        "Debug",
        "debug",
        vec![opt("verbose", "--verbose", verbose.map(ArgValue::Flag)), opt("timeout", "-t", None)],
    )
}

fn scalar_of(c: &CommandOpts, i: usize) -> Option<String> {
    match &c.body.fields[i].value {
        Some(FieldValue::Arg(ArgValue::Scalar(s))) => Some(s.clone()),
        _ => None,
    }
}

fn flag_of(c: &CommandOpts, i: usize) -> Option<bool> {
    match &c.body.fields[i].value {
        Some(FieldValue::Arg(ArgValue::Flag(b))) => Some(*b),
        _ => None,
    }
}

#[test]
fn unit_variant_in_config_without_cli_command_returns_error() {
    let cfg = CommandConfig {
        variants: variants(),
        entries: vec![CommandEntry { name: text("run"), value: EntryValue::Flag(true) }],
        fallback_command: None,
    };

    let result = cfg.merge_command(None);

    assert!(result.is_err());
}

#[test]
fn newtype_variant_config_provides_fallback_for_cli_command() {
    let cfg = config(
        vec![entry("build", vec![opt("target", "--target", scalar("x86_64-unknown-linux-gnu"))])],
        None,
    );

    let cmd = cfg.merge_command(Some(build_cli(None))).unwrap().unwrap();

    assert_eq!(cmd.variant, "Build");
    assert_eq!(scalar_of(&cmd, 0).as_deref(), Some("x86_64-unknown-linux-gnu"));
}

#[test]
fn struct_variant_config_provides_fallback_for_cli_command() {
    let cfg = config(vec![entry("debug", vec![opt("verbose", "--verbose", Some(ArgValue::Flag(true)))])], None);

    let cmd = cfg.merge_command(Some(debug_cli(None))).unwrap().unwrap();

    assert_eq!(cmd.variant, "Debug");
    assert_eq!(flag_of(&cmd, 0), Some(true));
    assert!(cmd.body.fields[1].value.is_none());
}

#[test]
fn cli_subcommand_overrides_config_subcommand() {
    let cfg = config(
        vec![entry("build", vec![opt("target", "--target", scalar("x86_64-unknown-linux-gnu"))])],
        None,
    );

    let cmd = cfg.merge_command(Some(command("Run", "run", vec![]))).unwrap().unwrap();

    assert_eq!(cmd.variant, "Run");
    assert!(cmd.body.fields.is_empty());
}

#[test]
fn fallback_command_promotes_unit_variant() {
    let cfg = config(vec![], Some("run"));

    let cmd = cfg.merge_command(None).unwrap().unwrap();

    assert_eq!(cmd.variant, "Run");
    assert_eq!(cmd.cli_name, "run");
}

#[test]
fn fallback_command_promotes_newtype_variant() {
    let cfg = config(vec![entry("build", vec![opt("target", "--target", scalar("x86_64"))])], Some("build"));

    let cmd = cfg.merge_command(None).unwrap().unwrap();

    assert_eq!(cmd.variant, "Build");
    assert_eq!(scalar_of(&cmd, 0).as_deref(), Some("x86_64"));
}

#[test]
fn fallback_command_promotes_struct_variant() {
    let cfg = config(vec![entry("debug", vec![opt("verbose", "--verbose", Some(ArgValue::Flag(true)))])], Some("debug"));

    let cmd = cfg.merge_command(None).unwrap().unwrap();

    assert_eq!(cmd.variant, "Debug");
    assert_eq!(flag_of(&cmd, 0), Some(true));
    assert!(cmd.body.fields[1].value.is_none());
}

#[test]
fn fallback_command_promotes_without_entries() {
    let cfg = config(vec![], Some("run"));

    let cmd = cfg.merge_command(None).unwrap().unwrap();

    assert_eq!(cmd.variant, "Run");
}

#[test]
fn fallback_command_with_cli_command_still_wins() {
    let cfg = config(vec![entry("build", vec![opt("target", "--target", scalar("x86_64"))])], Some("run"));

    let cmd = cfg.merge_command(Some(build_cli(None))).unwrap().unwrap();

    assert_eq!(cmd.variant, "Build");
    assert_eq!(scalar_of(&cmd, 0).as_deref(), Some("x86_64"));
}

#[test]
fn fallback_command_multi_entries_succeeds() {
    let cfg = config(
        vec![
            entry("build", vec![opt("target", "--target", scalar("x86_64"))]),
            entry("debug", vec![opt("verbose", "--verbose", Some(ArgValue::Flag(true)))]),
        ],
        Some("build"),
    );

    let cmd = cfg.merge_command(None).unwrap().unwrap();

    assert_eq!(cmd.variant, "Build");
    assert_eq!(scalar_of(&cmd, 0).as_deref(), Some("x86_64"));
}

#[test]
fn fallback_command_entries_without_fallback_errors() {
    let cfg = config(vec![entry("build", vec![opt("target", "--target", scalar("x86_64"))])], None);

    assert!(cfg.merge_command(None).is_err());
}

#[test]
fn fallback_command_unknown_command_errors() {
    let cfg = config(vec![], Some("deploy"));

    let err = cfg.merge_command(None).unwrap_err();

    assert_eq!(err, "unknown fallback command: deploy");
}

#[test]
fn fallback_command_cli_override_with_fallback() {
    let cfg = config(vec![entry("build", vec![opt("target", "--target", scalar("x86_64"))])], Some("run"));

    let cmd = cfg.merge_command(Some(build_cli(Some("arm64")))).unwrap().unwrap();

    assert_eq!(cmd.variant, "Build");
    assert_eq!(scalar_of(&cmd, 0).as_deref(), Some("arm64"));
}

#[test]
fn no_command_and_no_entries_gives_no_command() {
    let cfg = config(vec![], None);

    assert!(cfg.merge_command(None).unwrap().is_none());
}

#[test]
fn unit_merge_command_passes_the_cli_choice_through() {
    assert_eq!(().merge_command(Some(())), Ok(Some(())));
    assert_eq!(().merge_command(None), Ok(None));
}

#[test]
fn skipped_variant_chosen_on_cli_is_kept_unchanged() {
    let cfg = config(vec![entry("build", vec![opt("target", "--target", scalar("x86_64"))])], None);

    let cmd = cfg.merge_command(Some(command("Test", "test", vec![]))).unwrap().unwrap();

    assert_eq!(cmd.variant, "Test");
    assert_eq!(cmd.cli_name, "test");
}

#[test]
fn matched_subcommand_selects_its_variant() {
    let chosen = select_command(&variants(), "debug", None).unwrap();
    assert_eq!(chosen.variant, "Debug");
    assert_eq!(chosen.cli_name, "debug");
    let keys: Vec<&str> = chosen.body.fields.iter().map(|f| f.key.as_str()).collect();
    assert_eq!(keys, ["verbose", "timeout"]);
    assert!(chosen.body.fields.iter().all(|f| f.value.is_none()));
    assert_eq!(chosen.body.fields[1].flag.as_deref(), Some("-t"));

    let given = OptsRecord { fields: vec![opt("target", "--target", scalar("x86"))] };
    let build = select_command(&variants(), "build", Some(given)).unwrap();
    assert_eq!(build.variant, "Build");
    assert_eq!(scalar_of(&build, 0).as_deref(), Some("x86"));

    let run = select_command(&variants(), "run", Some(OptsRecord { fields: vec![] })).unwrap();
    assert!(run.body.fields.is_empty());

    assert!(select_command(&variants(), "test", None).is_none());
}

fn ty(ident: &str) -> TypeModel {
    TypeModel::Path(PathModel {
        leading_colon: false,
        segments: vec![PathSegment { ident: text(ident), arguments: PathArguments::Bare }],
    })
}

fn model_field(name: Option<&str>, t: TypeModel) -> Field {
    Field {
        ident: name.map(text),
        ty: t,
        attrs: vec![],
        args: vec![ClapArg { long: Some(Override::Inherit), ..ClapArg::default() }],
        commands: vec![],
        skip: false,
        path: false,
        format: None,
        value_format: None,
        precedence: ConfigPrecedence::default(),
        no_flatten: false,
        aliases: vec![],
    }
}

fn model_variant(name: &str, style: Style, fields: Vec<Field>, skip: bool) -> Variant {
    Variant { ident: text(name), fields: Fields { style, fields }, skip }
}

/// The layout of the section of `Command { Run(()), Build(BuildCommand), Debug { verbose,
/// timeout }, Empty {}, #[config(skip)] Test }`, read as the derive reads it.
fn command_layout() -> SectionLayout {
    let run = model_variant("Run", Style::Tuple, vec![model_field(None, TypeModel::Tuple(vec![]))], false);
    let input = ConfigSubcommand {
        ident: text("Command"),
        variants: vec![
            run.autocorrect().unwrap(),
            model_variant("Build", Style::Tuple, vec![model_field(None, ty("BuildCommand"))], false),
            model_variant(
                "Debug",
                Style::Struct,
                vec![model_field(Some("verbose"), ty("bool")), model_field(Some("timeout"), ty("Duration"))],
                false,
            ),
            model_variant("Empty", Style::Struct, vec![], false),
            model_variant("Test", Style::Unit, vec![], true),
        ],
        skip_all: false,
        tag: None,
    };
    let generator = EnumGenerator::new(input);
    generator.generate().config.layout
}

fn table(keys: &[&str]) -> SectionShape {
    SectionShape::Table { keys: keys.iter().map(|k| text(k)).collect(), tag_value: None }
}

#[test]
fn missing_config_tag_returns_error() {
    let err = read_section(&command_layout(), &table(&["target"])).unwrap_err();
    assert_eq!(err, "unknown key in subcommand section: target");
}

#[test]
fn unknown_config_tag_returns_error() {
    let err = read_section(&command_layout(), &table(&["deploy"])).unwrap_err();
    assert_eq!(err, "unknown key in subcommand section: deploy");
}

#[test]
fn skipped_config_variant_returns_error() {
    let err = read_section(&command_layout(), &table(&["test"])).unwrap_err();
    assert_eq!(err, "unknown key in subcommand section: test");
}

#[test]
fn section_keys_are_the_entries_and_the_fallback_command() {
    let layout = command_layout();
    assert_eq!(layout.entries, ["run", "build", "debug", "empty"]);
    assert_eq!(layout.fallback_key, "fallback_command");
    assert!(layout.tag.is_none());
    let reading = read_section(&layout, &table(&["run", "build", "debug", "empty", "fallback_command"]));
    assert!(matches!(reading, Ok(SectionReading::Entries)));
    assert!(read_section(&layout, &SectionShape::Other).is_err());
}

/// `enum Command { Serve, Build(BuildCommand) }`, tagged by `tag`.
fn serve_build(tag: Option<&str>) -> (SectionLayout, Vec<VariantSpec>) {
    let input = ConfigSubcommand {
        ident: text("Command"),
        variants: vec![
            model_variant("Serve", Style::Unit, vec![], false),
            model_variant("Build", Style::Tuple, vec![model_field(None, ty("BuildCommand"))], false),
        ],
        skip_all: false,
        tag: tag.map(text),
    };
    let specs = vec![
        variant_spec(&input.variants[0], vec![]),
        variant_spec(&input.variants[1], vec![spec_field("target", "--target")]),
    ];
    let generator = EnumGenerator::new(input);
    (generator.generate().config.layout, specs)
}

#[test]
fn bare_command_name_runs_that_command() {
    let (layout, specs) = serve_build(None);
    let reading = read_section(&layout, &SectionShape::Name(text("serve"))).unwrap();
    let config = command_config(specs, reading, vec![], None);
    let chosen = config.merge_command(None).unwrap().unwrap();
    assert_eq!(chosen.variant, "Serve");
    assert_eq!(chosen.cli_name, "serve");
}

#[test]
fn internally_tagged_section_selects_its_variant() {
    let (layout, specs) = serve_build(Some("name"));
    assert_eq!(layout.tag.as_deref(), Some("name"));
    let shape = SectionShape::Table { keys: vec![text("name"), text("target")], tag_value: Some(text("build")) };
    let reading = read_section(&layout, &shape).unwrap();
    assert!(matches!(&reading, SectionReading::Tagged(v) if v == "build"));
    let entry = entry("build", vec![opt("target", "--target", scalar("x86_64-unknown-linux-gnu"))]);
    let config = command_config(specs, reading, vec![entry], None);
    let chosen = config.merge_command(None).unwrap().unwrap();
    assert_eq!(chosen.variant, "Build");
    assert_eq!(scalar_of(&chosen, 0).as_deref(), Some("x86_64-unknown-linux-gnu"));

    let missing = SectionShape::Table { keys: vec![text("target")], tag_value: None };
    assert_eq!(read_section(&layout, &missing).unwrap_err(), "missing tag in subcommand section: name");
    let unknown = SectionShape::Table { keys: vec![text("name")], tag_value: Some(text("deploy")) };
    assert_eq!(read_section(&layout, &unknown).unwrap_err(), "unknown subcommand in tag: deploy");
}
