//! What the derives generate, decided from the derive input: the optional `Opts` struct and the
//! `Config` struct of every input, the attributes of each generated field, and the conversions
//! between clap's matches, the options and command-line arguments.

use vstd::prelude::*;
use crate::clap_attr::{aliases_of, flag_name_of, is_sanitized, ClapArg, ClapCommand, Sanitized};
use crate::input::{ConfigArgs, ConfigParser, ConfigSubcommand, EnumLike, StructLike, ConfigPrecedence, Field, NamedField, Skippable, Style, Variant, has_command, is_newtype, is_supported_variant};
use crate::command::{BodyShape, FieldSpec, SectionLayout, VariantSpec, copy_opt_text};
use crate::text::{kebab_case, to_kebab_case};
use crate::text::{join2, snake_case, to_snake_case};
use crate::types::{TypeModel, option_inner, type_is, value_type};

verus! {

/// The struct being generated: the optional intermediate struct merged with the configuration,
/// or the struct the configuration file is read into.
#[derive(Debug, Clone, Copy, PartialEq, Eq, Structural)]
pub enum GenerationTarget {
    /// The intermediate command-line representation.
    Opts,
    /// The configuration-file representation.
    Config,
}

/// The suffix of a generated type's name.
pub open spec fn suffix_of(t: GenerationTarget) -> Seq<char> {
    match t {
        GenerationTarget::Opts => "Opts"@,
        GenerationTarget::Config => "Config"@,
    }
}

impl GenerationTarget {
    /// Suffix appended to generated types.
    pub fn suffix(&self) -> (r: &'static str)
        ensures
            r@ == suffix_of(*self),
    {
        match self {
            GenerationTarget::Opts => "Opts",
            GenerationTarget::Config => "Config",
        }
    }

    /// The suffix as an identifier.
    pub fn suffix_ident(&self) -> (r: String)
        ensures
            r@ == suffix_of(*self),
    {
        String::from_str(self.suffix())
    }

    /// Whether `value` is left out of the type generated for this target: nothing is left out
    /// of the intermediate struct, and skipped items are left out of the configuration struct.
    pub fn should_skip<T: Skippable>(&self, value: &T) -> (r: bool)
        ensures
            r == (*self == GenerationTarget::Config && value.skipped()),
    {
        match self {
            GenerationTarget::Opts => false,
            GenerationTarget::Config => value.is_skipped(),
        }
    }
}

/// The name of a type generated from `base`.
pub fn generated_ident(base: &str, target: GenerationTarget) -> (r: String)
    ensures
        r@ == base@ + suffix_of(target),
{
    join2(base, target.suffix())
}

/// The clap settings removed from a field of the intermediate struct, so that clap does not
/// supply or demand a value the configuration may still provide: requirements, conflicts and
/// exclusivity always; defaults too unless the configuration comes after them; environment
/// variables too when the configuration comes before them. The path field keeps its defaults.
pub open spec fn denied_args_of(precedence: ConfigPrecedence, is_path: bool) -> Seq<Seq<char>> {
    if is_path || precedence == ConfigPrecedence::AfterDefault {
        seq!["require"@, "conflicts"@, "exclusive"@]
    } else if precedence == ConfigPrecedence::BeforeDefault {
        seq!["default"@, "require"@, "conflicts"@, "exclusive"@]
    } else {
        seq!["default"@, "env"@, "require"@, "conflicts"@, "exclusive"@]
    }
}

/// The prefixes of the clap settings removed from a field of the intermediate struct.
pub fn denied_args(precedence: ConfigPrecedence, is_path: bool) -> (r: Vec<&'static str>)
    ensures
        r@.map_values(|s: &str| s@) == denied_args_of(precedence, is_path),
{
    let mut r: Vec<&'static str> = Vec::new();
    if is_path || precedence == ConfigPrecedence::AfterDefault {
        r.push("require");
        r.push("conflicts");
        r.push("exclusive");
    } else if precedence == ConfigPrecedence::BeforeDefault {
        r.push("default");
        r.push("require");
        r.push("conflicts");
        r.push("exclusive");
    } else {
        r.push("default");
        r.push("env");
        r.push("require");
        r.push("conflicts");
        r.push("exclusive");
    }
    proof {
        assert(r@.map_values(|s: &str| s@) =~= denied_args_of(precedence, is_path));
    }
    r
}


/// The type inside `Option<..>`, or the type itself when it is no `Option`.
pub open spec fn unwrapped(t: TypeModel) -> TypeModel {
    match option_inner(t) {
        Some(inner) => inner,
        None => t,
    }
}

/// Whether a field is structured: it has a `#[command(..)]` attribute.
pub open spec fn is_structured(f: Field) -> bool {
    f.commands@.len() > 0
}

/// How a field of the intermediate struct is initialized from clap's matches.
#[derive(Debug)]
pub enum FromArgsKind<'a> {
    /// From the nested type's own intermediate struct, built from the same matches.
    Structured(&'a TypeModel),
    /// A boolean flag: `Some(true)` when set, absent otherwise.
    Flag,
    /// All values of the argument, when it has any.
    Many,
    /// The argument's value, when it has one.
    One,
}

/// Whether `k` initializes the field `f` of the intermediate struct: a structured field from
/// its type's intermediate struct, a `bool` as a flag, a `Vec` or `Option<Vec<..>>` from all
/// values, any other from the one value.
pub open spec fn is_from_args_kind(f: Field, k: FromArgsKind) -> bool {
    if is_structured(f) {
        k == FromArgsKind::Structured(&unwrapped(f.ty))
    } else if type_is(f.ty, "bool"@) {
        k is Flag
    } else if type_is(unwrapped(f.ty), "Vec"@) {
        k is Many
    } else {
        k is One
    }
}

/// The initializer of a field of the intermediate struct.
pub fn from_args_initializer(field: &Field) -> (r: FromArgsKind)
    ensures
        is_from_args_kind(*field, r),
{
    let f = field;
    if f.is_structured() {
        FromArgsKind::Structured(f.ty().unwrap_option())
    } else if f.ty().is("bool") {
        FromArgsKind::Flag
    } else if f.ty().unwrap_option().is("Vec") {
        FromArgsKind::Many
    } else {
        FromArgsKind::One
    }
}

/// The flag of the first `#[arg(..)]` attribute that gives one.
pub open spec fn first_flag_name(args: Seq<ClapArg>, ident: Seq<char>) -> Option<Seq<char>>
    decreases args.len(),
{
    if args.len() == 0 {
        None
    } else {
        match flag_name_of(args[0], ident) {
            Some(f) => Some(f),
            None => first_flag_name(args.drop_first(), ident),
        }
    }
}

/// The flag introducing a field on the command line: the first one its `#[arg(..)]`
/// attributes give.
pub fn field_flag_name(args: &Vec<ClapArg>, ident: &str) -> (r: Option<String>)
    ensures
        match r {
            Some(s) => first_flag_name(args@, ident@) == Some(s@),
            None => first_flag_name(args@, ident@) is None,
        },
{
    let mut i: usize = 0;
    proof {
        assert(args@.skip(0) =~= args@);
    }
    while i < args.len()
        invariant
            i <= args.len(),
            first_flag_name(args@, ident@) == first_flag_name(args@.skip(i as int), ident@),
        decreases args.len() - i,
    {
        proof {
            assert(args@.skip(i as int)[0] == args@[i as int]);
            assert(args@.skip(i as int).drop_first() =~= args@.skip(i + 1));
        }
        match args[i].flag_name(ident) {
            Some(f) => {
                return Some(f);
            },
            None => {},
        }
        i = i + 1;
    }
    None
}

/// The form of a field's value on the command line.
#[derive(Debug, Clone, Copy, PartialEq, Eq, Structural)]
pub enum LeafShape {
    /// A flag given when the value is `true`.
    Flag,
    /// Every value in turn, each after the flag when there is one.
    Repeated,
    /// The single value, after the flag when there is one.
    Scalar,
}

/// How a field of the intermediate struct turns into command-line arguments.
#[derive(Debug)]
pub enum IntoArgsStatement {
    /// By the nested value's own conversion.
    Structured,
    /// As a value of the given form after the given flag, formatted by the field's
    /// `value_format` when it has one, else by `format::path` when the values are paths
    /// (`path_value`), else as their own text.
    Leaf { flag: Option<String>, shape: LeafShape, custom_format: bool, path_value: bool },
}

/// The form of a field's value on the command line: a `bool` with a flag is a flag, a `Vec`
/// or `Option<Vec<..>>` is repeated, and any other value (a `bool` without a flag included) is
/// a single value.
pub open spec fn leaf_shape_of(ty: TypeModel, has_flag: bool) -> LeafShape {
    if has_flag && type_is(ty, "bool"@) {
        LeafShape::Flag
    } else if type_is(unwrapped(ty), "Vec"@) {
        LeafShape::Repeated
    } else {
        LeafShape::Scalar
    }
}

/// Whether `s` turns the leaf field `f` into arguments: after the first flag its attributes
/// give, in the form its type calls for, formatted by its `value_format` when it has one, and
/// otherwise as paths when each value it holds is a `PathBuf` (which has no text of its own).
pub open spec fn is_leaf_statement(f: Field, s: IntoArgsStatement) -> bool {
    match s {
        IntoArgsStatement::Leaf { flag, shape, custom_format, path_value } => {
            &&& match flag {
                Some(n) => first_flag_name(f.args@, f.ident->0@) == Some(n@),
                None => first_flag_name(f.args@, f.ident->0@) is None,
            }
            &&& shape == leaf_shape_of(f.ty, flag is Some)
            &&& custom_format == f.value_format is Some
            &&& path_value == (f.value_format is None && type_is(value_type(f.ty), "PathBuf"@))
        },
        IntoArgsStatement::Structured => false,
    }
}

/// Whether `s` turns the field `f` into arguments.
pub open spec fn is_statement(f: Field, s: IntoArgsStatement) -> bool {
    if is_structured(f) {
        s is Structured
    } else {
        is_leaf_statement(f, s)
    }
}

/// How a field turns into command-line arguments.
pub fn into_args_statement(field: &Field) -> (r: IntoArgsStatement)
    requires
        field.ident is Some,
    ensures
        is_statement(*field, r),
{
    let f = field;
    if f.is_structured() {
        return IntoArgsStatement::Structured;
    }
    let ident = field.ident.as_ref().unwrap();
    let flag = field_flag_name(f.args(), ident.as_str());
    let shape = if flag.is_some() && f.ty().is("bool") {
        LeafShape::Flag
    } else if f.ty().unwrap_option().is("Vec") {
        LeafShape::Repeated
    } else {
        LeafShape::Scalar
    };
    let custom_format = f.value_format().is_some();
    let path_value = !custom_format && f.ty().value_type().is("PathBuf");
    IntoArgsStatement::Leaf { flag, shape, custom_format, path_value }
}

/// The aliases of all `#[arg(..)]` attributes, in order.
pub open spec fn args_aliases(args: Seq<ClapArg>) -> Seq<Seq<char>>
    decreases args.len(),
{
    if args.len() == 0 {
        Seq::empty()
    } else {
        args_aliases(args.drop_last()) + aliases_of(args.last())
    }
}

/// The aliases the configuration accepts for a field: for a structured field its
/// configuration-only aliases (clap has none for it), otherwise the aliases of its
/// `#[arg(..)]` attributes.
pub open spec fn serde_aliases_of(f: Field) -> Seq<Seq<char>> {
    if is_structured(f) {
        f.aliases.deep_view()
    } else {
        args_aliases(f.args@)
    }
}

/// The aliases the configuration accepts for a field.
pub fn serde_aliases(field: &Field) -> (r: Vec<String>)
    ensures
        r.deep_view() == serde_aliases_of(*field),
{
    let f = field;
    if f.is_structured() {
        return crate::arg::copy_texts(f.aliases());
    }
    let args = f.args();
    let mut r: Vec<String> = Vec::new();
    let mut i: usize = 0;
    proof {
        assert(r.deep_view() =~= args_aliases(args@.take(0)));
    }
    while i < args.len()
        invariant
            i <= args.len(),
            r.deep_view() == args_aliases(args@.take(i as int)),
        decreases args.len() - i,
    {
        let mut more = args[i].aliases();
        let ghost before = r.deep_view();
        let ghost added = more.deep_view();
        r.append(&mut more);
        proof {
            assert(r.deep_view() =~= before + added);
            assert(args@.take(i + 1).drop_last() =~= args@.take(i as int));
            assert(args@.take(i + 1).last() == args@[i as int]);
        }
        i = i + 1;
    }
    proof {
        assert(args@.take(args.len() as int) =~= args@);
    }
    r
}

/// Whether one of the `#[arg(..)]` attributes gives a value parser as a path.
pub open spec fn has_value_parser(args: Seq<ClapArg>) -> bool {
    exists|i: int| 0 <= i < args.len() && (#[trigger] args[i]).value_parser matches Some(Ok(_))
}

/// The name of the function reading a field with a value parser from the configuration:
/// `deserialize_<prefix in snake case>_<field>` for a field of a struct variant, else
/// `deserialize_<field>`.
pub open spec fn deserialize_fn_name_of(ident: Seq<char>, prefix: Option<Seq<char>>) -> Seq<char> {
    match prefix {
        Some(p) => "deserialize_"@ + snake_case(p) + "_"@ + ident,
        None => "deserialize_"@ + ident,
    }
}

/// Whether one of the `#[arg(..)]` attributes gives a value parser as a path.
pub fn value_parser_given(args: &Vec<ClapArg>) -> (r: bool)
    ensures
        r == has_value_parser(args@),
{
    let mut i: usize = 0;
    while i < args.len()
        invariant
            i <= args.len(),
            forall|j: int| 0 <= j < i ==> !((#[trigger] args@[j]).value_parser matches Some(Ok(_))),
        decreases args.len() - i,
    {
        if args[i].value_parser().is_some() {
            return true;
        }
        i = i + 1;
    }
    false
}

/// The name of the function reading the field from the configuration through its value
/// parser; none when the field has no value parser.
pub fn deserialize_fn_name(field: &Field, prefix: Option<&str>) -> (r: Option<String>)
    requires
        field.ident is Some,
    ensures
        has_value_parser(field.args@) ==> (r matches Some(n) && n@ == deserialize_fn_name_of(
            field.ident->0@,
            match prefix {
                Some(p) => Some(p@),
                None => None,
            },
        )),
        !has_value_parser(field.args@) ==> r is None,
{
    let f = field;
    if !value_parser_given(f.args()) {
        return None;
    }
    let ident = field.ident.as_ref().unwrap();
    let name = match prefix {
        Some(p) => {
            let snake = to_snake_case(p);
            String::from_str("deserialize_").concat(snake.as_str()).concat("_").concat(ident.as_str())
        },
        None => String::from_str("deserialize_").concat(ident.as_str()),
    };
    proof {
        reveal_strlit("deserialize_");
        reveal_strlit("_");
        let pv = match prefix {
            Some(p) => Some(p@),
            None => None,
        };
        assert(name@ =~= deserialize_fn_name_of(ident@, pv));
    }
    Some(name)
}

/// The path of the function a configuration field is read with: `<struct>::<function>`.
pub fn deserialize_with_path(struct_ident: &str, field: &Field, prefix: Option<&str>) -> (r: Option<String>)
    requires
        field.ident is Some,
    ensures
        has_value_parser(field.args@) ==> (r matches Some(n) && n@ == struct_ident@ + "::"@
            + deserialize_fn_name_of(
            field.ident->0@,
            match prefix {
                Some(p) => Some(p@),
                None => None,
            },
        )),
        !has_value_parser(field.args@) ==> r is None,
{
    match deserialize_fn_name(field, prefix) {
        Some(name) => Some(String::from_str(struct_ident).concat("::").concat(name.as_str())),
        None => None,
    }
}


/// The field's attributes as the intermediate struct carries them: every `#[arg(..)]` list
/// without the settings its precedence denies.
pub fn sanitized_clap_attrs(field: &Field) -> (r: Vec<Sanitized>)
    ensures
        r@.len() == field.attrs@.len(),
        forall|i: int|
            0 <= i < r@.len() ==> is_sanitized(
                field.attrs@[i],
                denied_args_of(field.precedence, field.path),
                #[trigger] r@[i],
            ),
{
    let f = field;
    let denied = denied_args(f.precedence(), f.is_path());
    let attrs = f.attributes();
    let mut r: Vec<Sanitized> = Vec::new();
    let mut i: usize = 0;
    while i < attrs.len()
        invariant
            i <= attrs.len(),
            r@.len() == i,
            denied@.map_values(|d: &str| d@) == denied_args_of(field.precedence, field.path),
            *attrs == field.attrs,
            forall|j: int|
                0 <= j < i ==> is_sanitized(
                    attrs@[j],
                    denied_args_of(field.precedence, field.path),
                    #[trigger] r@[j],
                ),
        decreases attrs.len() - i,
    {
        r.push(ClapArg::sanitize(&attrs[i], denied.as_slice()));
        i = i + 1;
    }
    r
}

/// Whether the intermediate struct's field takes clap's set-true action: it is a `bool`.
pub fn clap_bool_action(field: &Field) -> (r: bool)
    ensures
        r == type_is(field.ty, "bool"@),
{
    field.ty().is("bool")
}

/// A field of a generated struct.
#[derive(Debug)]
pub struct FieldDefinition<'a> {
    pub ident: &'a String,
    /// For a structured field, the type whose intermediate or configuration struct the field
    /// holds; for any other field, its own type.
    pub ty: &'a TypeModel,
    pub structured: bool,
    /// Whether the type is wrapped in `Option<..>` (every field of a generated struct is
    /// optional).
    pub wrap_option: bool,
    /// Whether the field's section is flattened into the parent's (`#[serde(flatten)]`).
    pub flatten: bool,
    /// Whether the field's attributes are carried over as written.
    pub forward_attrs: bool,
    /// The field's attributes as sanitized, one for each attribute, when they are carried over
    /// sanitized.
    pub sanitized_attrs: Vec<Sanitized>,
    /// Whether the field takes clap's set-true action.
    pub bool_action: bool,
    /// The aliases the configuration accepts for the field.
    pub serde_aliases: Vec<String>,
    /// The function the field is read with from the configuration, when it has a value parser.
    pub deserialize_with: Option<String>,
}

/// Whether `d` is the definition of `field` in the struct `struct_ident` generated for
/// `target`. A structured field holds the `Opts` or `Config` struct of its type, flattened
/// into the parent's section when the field is flattened; the intermediate struct carries its
/// attributes as written, the configuration struct its configuration-only aliases. Any other
/// field is optional; the intermediate struct carries its attributes sanitized and gives a
/// `bool` clap's set-true action, the configuration struct carries its aliases and reads it
/// through its value parser.
pub open spec fn is_field_definition(
    struct_ident: Seq<char>,
    field: Field,
    prefix: Option<Seq<char>>,
    target: GenerationTarget,
    d: FieldDefinition,
) -> bool {
    &&& field.ident == Some(*d.ident)
    &&& d.structured == is_structured(field)
    &&& if is_structured(field) {
        &&& *d.ty == unwrapped(field.ty)
        &&& !d.wrap_option
        &&& d.flatten == (has_command(field.commands@, ClapCommand::Flatten) && !field.no_flatten)
        &&& d.forward_attrs == (target == GenerationTarget::Opts)
        &&& d.sanitized_attrs@.len() == 0
        &&& !d.bool_action
        &&& d.serde_aliases.deep_view() == (if target == GenerationTarget::Config {
            serde_aliases_of(field)
        } else {
            Seq::empty()
        })
        &&& d.deserialize_with is None
    } else {
        &&& *d.ty == field.ty
        &&& d.wrap_option == !type_is(field.ty, "Option"@)
        &&& !d.flatten
        &&& !d.forward_attrs
        &&& if target == GenerationTarget::Opts {
            &&& d.sanitized_attrs@.len() == field.attrs@.len()
            &&& forall|i: int|
                0 <= i < field.attrs@.len() ==> is_sanitized(
                    field.attrs@[i],
                    denied_args_of(field.precedence, field.path),
                    #[trigger] d.sanitized_attrs@[i],
                )
            &&& d.bool_action == type_is(field.ty, "bool"@)
            &&& d.serde_aliases.deep_view() == Seq::<Seq<char>>::empty()
            &&& d.deserialize_with is None
        } else {
            &&& d.sanitized_attrs@.len() == 0
            &&& !d.bool_action
            &&& d.serde_aliases.deep_view() == serde_aliases_of(field)
            &&& if has_value_parser(field.args@) {
                d.deserialize_with matches Some(w) && w@ == struct_ident + "::"@
                    + deserialize_fn_name_of(field.ident->0@, prefix)
            } else {
                d.deserialize_with is None
            }
        }
    }
}

/// The definition of `field` in the struct `struct_ident` generated for `target`.
pub fn field_definition<'a>(
    struct_ident: &str,
    field: &'a Field,
    prefix: Option<&str>,
    target: GenerationTarget,
) -> (r: FieldDefinition<'a>)
    requires
        field.ident is Some,
    ensures
        is_field_definition(
            struct_ident@,
            *field,
            match prefix {
                Some(p) => Some(p@),
                None => None,
            },
            target,
            r,
        ),
{
    let f = field;
    let ident = field.ident.as_ref().unwrap();
    if f.is_structured() {
        let serde_aliases = match target {
            GenerationTarget::Opts => {
                let v: Vec<String> = Vec::new();
                proof {
                    assert(v.deep_view() =~= Seq::<Seq<char>>::empty());
                }
                v
            },
            GenerationTarget::Config => serde_aliases(field),
        };
        return FieldDefinition {
            ident,
            ty: f.ty().unwrap_option(),
            structured: true,
            wrap_option: false,
            flatten: f.flatten(),
            forward_attrs: target == GenerationTarget::Opts,
            sanitized_attrs: Vec::new(),
            bool_action: false,
            serde_aliases,
            deserialize_with: None,
        };
    }
    match target {
        GenerationTarget::Opts => {
            let v: Vec<String> = Vec::new();
            proof {
                assert(v.deep_view() =~= Seq::<Seq<char>>::empty());
            }
            FieldDefinition {
                ident,
                ty: f.ty(),
                structured: false,
                wrap_option: !f.ty().is("Option"),
                flatten: false,
                forward_attrs: false,
                sanitized_attrs: sanitized_clap_attrs(field),
                bool_action: clap_bool_action(field),
                serde_aliases: v,
                deserialize_with: None,
            }
        },
        GenerationTarget::Config => {
            FieldDefinition {
                ident,
                ty: f.ty(),
                structured: false,
                wrap_option: !f.ty().is("Option"),
                flatten: false,
                forward_attrs: false,
                sanitized_attrs: Vec::new(),
                bool_action: false,
                serde_aliases: serde_aliases(field),
                deserialize_with: deserialize_with_path(struct_ident, field, prefix),
            }
        },
    }
}


/// The fields kept in the struct generated for `target`, in order.
pub open spec fn kept_fields(fields: Seq<NamedField>, target: GenerationTarget) -> Seq<NamedField>
    decreases fields.len(),
{
    if fields.len() == 0 {
        Seq::empty()
    } else if target == GenerationTarget::Config && fields.last()@.skip {
        kept_fields(fields.drop_last(), target)
    } else {
        kept_fields(fields.drop_last(), target).push(fields.last())
    }
}

/// A generated struct: its name and its fields.
#[derive(Debug)]
pub struct StructPlan<'a> {
    pub ident: String,
    pub fields: Vec<FieldDefinition<'a>>,
}

/// Whether `p` is the struct generated for `target` from the struct `base` with `fields`:
/// named `<base><suffix>`, with a definition for every field kept for the target.
pub open spec fn is_struct_plan(
    base: Seq<char>,
    fields: Seq<NamedField>,
    target: GenerationTarget,
    p: StructPlan,
) -> bool {
    &&& p.ident@ == base + suffix_of(target)
    &&& p.fields@.len() == kept_fields(fields, target).len()
    &&& forall|i: int|
        0 <= i < p.fields@.len() ==> is_field_definition(
            p.ident@,
            kept_fields(fields, target)[i]@,
            None,
            target,
            #[trigger] p.fields@[i],
        )
}

/// The struct generated for `target` from the struct `base` with `fields`.
pub fn generate_struct<'a>(base: &str, fields: &'a Vec<NamedField>, target: GenerationTarget) -> (r:
    StructPlan<'a>)
    ensures
        is_struct_plan(base@, fields@, target, r),
{
    let ident = generated_ident(base, target);
    let mut defs: Vec<FieldDefinition<'a>> = Vec::new();
    let mut i: usize = 0;
    while i < fields.len()
        invariant
            i <= fields.len(),
            ident@ == base@ + suffix_of(target),
            defs@.len() == kept_fields(fields@.take(i as int), target).len(),
            forall|j: int|
                0 <= j < defs@.len() ==> is_field_definition(
                    ident@,
                    kept_fields(fields@.take(i as int), target)[j]@,
                    None,
                    target,
                    #[trigger] defs@[j],
                ),
        decreases fields.len() - i,
    {
        proof {
            assert(fields@.take(i + 1).drop_last() =~= fields@.take(i as int));
            assert(fields@.take(i + 1).last() == fields@[i as int]);
        }
        if !target.should_skip(&fields[i]) {
            let d = field_definition(ident.as_str(), fields[i].field(), None, target);
            defs.push(d);
        }
        i = i + 1;
    }
    proof {
        assert(fields@.take(fields.len() as int) =~= fields@);
    }
    StructPlan { ident, fields: defs }
}

/// How each field of the intermediate struct is initialized from clap's matches; the
/// intermediate value is absent when every field is.
pub fn from_args_plan<'a>(fields: &'a Vec<NamedField>) -> (r: Vec<FromArgsKind<'a>>)
    ensures
        r@.len() == fields@.len(),
        forall|i: int| 0 <= i < r@.len() ==> is_from_args_kind(fields@[i]@, #[trigger] r@[i]),
{
    let mut r: Vec<FromArgsKind<'a>> = Vec::new();
    let mut i: usize = 0;
    while i < fields.len()
        invariant
            i <= fields.len(),
            r@.len() == i,
            forall|j: int| 0 <= j < i ==> is_from_args_kind(fields@[j]@, #[trigger] r@[j]),
        decreases fields.len() - i,
    {
        r.push(from_args_initializer(fields[i].field()));
        i = i + 1;
    }
    r
}

/// How each field of the intermediate struct turns into command-line arguments, in order.
pub fn extend_args_plan(fields: &Vec<NamedField>) -> (r: Vec<IntoArgsStatement>)
    ensures
        r@.len() == fields@.len(),
        forall|i: int| 0 <= i < r@.len() ==> is_statement(fields@[i]@, #[trigger] r@[i]),
{
    let mut r: Vec<IntoArgsStatement> = Vec::new();
    let mut i: usize = 0;
    while i < fields.len()
        invariant
            i <= fields.len(),
            r@.len() == i,
            forall|j: int| 0 <= j < i ==> is_statement(fields@[j]@, #[trigger] r@[j]),
        decreases fields.len() - i,
    {
        r.push(into_args_statement(fields[i].field()));
        i = i + 1;
    }
    r
}

/// The position of the first field marked `#[config(path)]`.
pub open spec fn path_position(fields: Seq<NamedField>) -> Option<int>
    decreases fields.len(),
{
    if fields.len() == 0 {
        None
    } else if fields[0]@.path {
        Some(0)
    } else {
        match path_position(fields.drop_first()) {
            Some(i) => Some(i + 1),
            None => None,
        }
    }
}

/// The first field marked `#[config(path)]` is one of the fields.
pub proof fn lemma_path_position_bounds(fields: Seq<NamedField>)
    ensures
        path_position(fields) matches Some(i) ==> 0 <= i < fields.len() && fields[i]@.path,
    decreases fields.len(),
{
    if fields.len() > 0 {
        lemma_path_position_bounds(fields.drop_first());
    }
}

/// The field marked `#[config(path)]`: the first one, when there is one.
pub fn path_field(fields: &Vec<NamedField>) -> (r: Option<usize>)
    ensures
        match r {
            Some(i) => i < fields@.len() && path_position(fields@) == Some(i as int),
            None => path_position(fields@) is None,
        },
{
    let mut i: usize = 0;
    proof {
        assert(fields@.skip(0) =~= fields@);
    }
    while i < fields.len()
        invariant
            i <= fields.len(),
            path_position(fields@) == match path_position(fields@.skip(i as int)) {
                Some(k) => Some(k + i),
                None => None,
            },
        decreases fields.len() - i,
    {
        proof {
            assert(fields@.skip(i as int)[0] == fields@[i as int]);
            assert(fields@.skip(i as int).drop_first() =~= fields@.skip(i + 1));
        }
        if fields[i].field().is_path() {
            return Some(i);
        }
        i = i + 1;
    }
    proof {
        assert(fields@.skip(i as int).len() == 0);
    }
    None
}

/// The name of the field holding the configuration path; without one, fallback is disabled.
pub fn config_path_field(fields: &Vec<NamedField>) -> (r: Option<&String>)
    ensures
        match path_position(fields@) {
            Some(i) => r matches Some(n) && fields@[i]@.ident == Some(*n),
            None => r is None,
        },
{
    proof {
        lemma_path_position_bounds(fields@);
    }
    match path_field(fields) {
        Some(i) => Some(fields[i].ident()),
        None => None,
    }
}

/// The format the path field forces, which then replaces the one inferred from the
/// extension; none without a path field, or when it forces none.
pub fn config_format_override(fields: &Vec<NamedField>) -> (r: Option<crate::source::ConfigFormat>)
    ensures
        r == match path_position(fields@) {
            Some(i) => crate::source::forced_format(fields@[i]@.format),
            None => None,
        },
{
    proof {
        lemma_path_position_bounds(fields@);
    }
    match path_field(fields) {
        Some(i) => crate::source::format_override(fields[i].field().format()),
        None => None,
    }
}

/// The position of the first field marked `#[command(subcommand)]`.
pub open spec fn subcommand_position(fields: Seq<NamedField>) -> Option<int>
    decreases fields.len(),
{
    if fields.len() == 0 {
        None
    } else if has_command(fields[0]@.commands@, ClapCommand::Subcommand) {
        Some(0)
    } else {
        match subcommand_position(fields.drop_first()) {
            Some(i) => Some(i + 1),
            None => None,
        }
    }
}

/// The first field marked `#[command(subcommand)]` is one of the fields.
pub proof fn lemma_subcommand_position_bounds(fields: Seq<NamedField>)
    ensures
        subcommand_position(fields) matches Some(i) ==> 0 <= i < fields.len(),
    decreases fields.len(),
{
    if fields.len() > 0 {
        lemma_subcommand_position_bounds(fields.drop_first());
    }
}

/// The subcommand field that command-aware merging takes out and puts back: its name and the
/// subcommand enum it holds.
pub fn command_field(fields: &Vec<NamedField>) -> (r: Option<(&String, &TypeModel)>)
    ensures
        match subcommand_position(fields@) {
            Some(i) => r matches Some((n, t)) && fields@[i]@.ident == Some(*n) && *t == unwrapped(
                fields@[i]@.ty,
            ),
            None => r is None,
        },
{
    let mut i: usize = 0;
    proof {
        assert(fields@.skip(0) =~= fields@);
        lemma_subcommand_position_bounds(fields@);
    }
    while i < fields.len()
        invariant
            i <= fields.len(),
            subcommand_position(fields@) == match subcommand_position(fields@.skip(i as int)) {
                Some(k) => Some(k + i),
                None => None,
            },
        decreases fields.len() - i,
    {
        proof {
            assert(fields@.skip(i as int)[0] == fields@[i as int]);
            assert(fields@.skip(i as int).drop_first() =~= fields@.skip(i + 1));
        }
        let f = fields[i].field();
        if f.has_command(ClapCommand::Subcommand) {
            return Some((fields[i].ident(), f.ty().unwrap_option()));
        }
        i = i + 1;
    }
    proof {
        assert(fields@.skip(i as int).len() == 0);
    }
    None
}

/// The names of the functions reading fields through their value parsers, for the fields kept
/// in the configuration struct, in order.
pub open spec fn deserialize_fn_names(fields: Seq<NamedField>) -> Seq<Seq<char>>
    decreases fields.len(),
{
    if fields.len() == 0 {
        Seq::empty()
    } else if !fields.last()@.skip && has_value_parser(fields.last()@.args@) {
        deserialize_fn_names(fields.drop_last()).push(
            deserialize_fn_name_of(fields.last()@.ident->0@, None),
        )
    } else {
        deserialize_fn_names(fields.drop_last())
    }
}

/// The functions reading fields of the configuration struct through their value parsers.
pub fn deserialize_fns(fields: &Vec<NamedField>) -> (r: Vec<String>)
    ensures
        r.deep_view() == deserialize_fn_names(fields@),
{
    let mut r: Vec<String> = Vec::new();
    let mut i: usize = 0;
    proof {
        assert(r.deep_view() =~= deserialize_fn_names(fields@.take(0)));
    }
    while i < fields.len()
        invariant
            i <= fields.len(),
            r.deep_view() == deserialize_fn_names(fields@.take(i as int)),
        decreases fields.len() - i,
    {
        proof {
            assert(fields@.take(i + 1).drop_last() =~= fields@.take(i as int));
            assert(fields@.take(i + 1).last() == fields@[i as int]);
        }
        if !GenerationTarget::Config.should_skip(&fields[i]) {
            match deserialize_fn_name(fields[i].field(), None) {
                Some(name) => {
                    let ghost before = r.deep_view();
                    r.push(name);
                    proof {
                        assert(r.deep_view() =~= before.push(name@));
                    }
                },
                None => {},
            }
        }
        i = i + 1;
    }
    proof {
        assert(fields@.take(fields.len() as int) =~= fields@);
    }
    r
}

/// How the configuration of an argument struct merges into its intermediate struct: the
/// named plain fields take the command line's value, else the configuration's; the
/// structured fields are taken from the command line.
#[derive(Debug)]
pub struct MergePlan<'a> {
    pub merged: Vec<&'a String>,
    pub from_cli: Vec<&'a String>,
}

/// The names of the plain fields kept in the configuration struct, in order.
pub open spec fn merged_names(fields: Seq<NamedField>) -> Seq<String>
    decreases fields.len(),
{
    if fields.len() == 0 {
        Seq::empty()
    } else if !is_structured(fields.last()@) && !fields.last()@.skip {
        merged_names(fields.drop_last()).push(fields.last()@.ident->0)
    } else {
        merged_names(fields.drop_last())
    }
}

/// The names of the structured fields, in order.
pub open spec fn structured_names(fields: Seq<NamedField>) -> Seq<String>
    decreases fields.len(),
{
    if fields.len() == 0 {
        Seq::empty()
    } else if is_structured(fields.last()@) {
        structured_names(fields.drop_last()).push(fields.last()@.ident->0)
    } else {
        structured_names(fields.drop_last())
    }
}

/// How the configuration of an argument struct merges into its intermediate struct.
pub fn merge_plan<'a>(fields: &'a Vec<NamedField>) -> (r: MergePlan<'a>)
    ensures
        r.merged@.map_values(|s: &String| *s) == merged_names(fields@),
        r.from_cli@.map_values(|s: &String| *s) == structured_names(fields@),
{
    let mut merged: Vec<&'a String> = Vec::new();
    let mut from_cli: Vec<&'a String> = Vec::new();
    let mut i: usize = 0;
    proof {
        assert(merged@.map_values(|s: &String| *s) =~= merged_names(fields@.take(0)));
        assert(from_cli@.map_values(|s: &String| *s) =~= structured_names(fields@.take(0)));
    }
    while i < fields.len()
        invariant
            i <= fields.len(),
            merged@.map_values(|s: &String| *s) == merged_names(fields@.take(i as int)),
            from_cli@.map_values(|s: &String| *s) == structured_names(fields@.take(i as int)),
        decreases fields.len() - i,
    {
        proof {
            assert(fields@.take(i + 1).drop_last() =~= fields@.take(i as int));
            assert(fields@.take(i + 1).last() == fields@[i as int]);
        }
        let f = fields[i].field();
        let name = fields[i].ident();
        let ghost m0 = merged@;
        let ghost c0 = from_cli@;
        if f.is_structured() {
            from_cli.push(name);
            proof {
                assert(from_cli@.map_values(|s: &String| *s) =~= c0.map_values(|s: &String| *s).push(*name));
            }
        } else if !f.is_skipped() {
            merged.push(name);
            proof {
                assert(merged@.map_values(|s: &String| *s) =~= m0.map_values(|s: &String| *s).push(*name));
            }
        }
        i = i + 1;
    }
    proof {
        assert(fields@.take(fields.len() as int) =~= fields@);
    }
    MergePlan { merged, from_cli }
}


/// Whether a variant can be generated from: of a supported form, and with named fields when it
/// has fields by name.
pub open spec fn is_checked_variant(v: Variant) -> bool {
    &&& is_supported_variant(v)
    &&& v.fields.style == Style::Struct ==> forall|i: int|
        0 <= i < v.fields.fields@.len() ==> (#[trigger] v.fields.fields@[i]).ident is Some
}

/// The plain fields kept in the struct generated for `target`, in order.
pub open spec fn kept_plain_fields(fields: Seq<Field>, target: GenerationTarget) -> Seq<Field>
    decreases fields.len(),
{
    if fields.len() == 0 {
        Seq::empty()
    } else if target == GenerationTarget::Config && fields.last().skip {
        kept_plain_fields(fields.drop_last(), target)
    } else {
        kept_plain_fields(fields.drop_last(), target).push(fields.last())
    }
}

/// The definitions of the fields of a struct variant kept for `target`, in the enum or struct
/// `owner`, with the variant's name as prefix when one is given.
fn variant_field_definitions<'a>(
    owner: &str,
    fields: &'a Vec<Field>,
    prefix: Option<&str>,
    target: GenerationTarget,
) -> (r: Vec<FieldDefinition<'a>>)
    requires
        forall|i: int| 0 <= i < fields@.len() ==> (#[trigger] fields@[i]).ident is Some,
    ensures
        r@.len() == kept_plain_fields(fields@, target).len(),
        forall|i: int|
            0 <= i < r@.len() ==> is_field_definition(
                owner@,
                kept_plain_fields(fields@, target)[i],
                match prefix {
                    Some(p) => Some(p@),
                    None => None,
                },
                target,
                #[trigger] r@[i],
            ),
{
    let mut defs: Vec<FieldDefinition<'a>> = Vec::new();
    let mut i: usize = 0;
    while i < fields.len()
        invariant
            i <= fields.len(),
            forall|k: int| 0 <= k < fields@.len() ==> (#[trigger] fields@[k]).ident is Some,
            defs@.len() == kept_plain_fields(fields@.take(i as int), target).len(),
            forall|j: int|
                0 <= j < defs@.len() ==> is_field_definition(
                    owner@,
                    kept_plain_fields(fields@.take(i as int), target)[j],
                    match prefix {
                        Some(p) => Some(p@),
                        None => None,
                    },
                    target,
                    #[trigger] defs@[j],
                ),
        decreases fields.len() - i,
    {
        proof {
            assert(fields@.take(i + 1).drop_last() =~= fields@.take(i as int));
            assert(fields@.take(i + 1).last() == fields@[i as int]);
        }
        if !target.should_skip(&fields[i]) {
            let d = field_definition(owner, &fields[i], prefix, target);
            defs.push(d);
        }
        i = i + 1;
    }
    proof {
        assert(fields@.take(fields.len() as int) =~= fields@);
    }
    defs
}

/// The body of a generated enum variant.
#[derive(Debug)]
pub enum VariantBody<'a> {
    Unit,
    /// Holding the `Opts` or `Config` of the wrapped type.
    Newtype(&'a TypeModel),
    Struct(Vec<FieldDefinition<'a>>),
}

/// A variant of a generated enum.
#[derive(Debug)]
pub struct VariantPlan<'a> {
    pub ident: &'a String,
    pub body: VariantBody<'a>,
}

/// A generated enum: its name, its tag when internally tagged, and its variants (the
/// variants take their snake-case names in the configuration).
#[derive(Debug)]
pub struct EnumPlan<'a> {
    pub ident: String,
    pub tag: Option<&'a String>,
    pub variants: Vec<VariantPlan<'a>>,
}

/// The variants kept in the enum generated for `target`, in order.
pub open spec fn kept_variants(vs: Seq<Variant>, target: GenerationTarget) -> Seq<Variant>
    decreases vs.len(),
{
    if vs.len() == 0 {
        Seq::empty()
    } else if target == GenerationTarget::Config && vs.last().skip {
        kept_variants(vs.drop_last(), target)
    } else {
        kept_variants(vs.drop_last(), target).push(vs.last())
    }
}

/// Whether `p` is the variant `v` in the enum `owner` generated for `target`.
pub open spec fn is_variant_plan(owner: Seq<char>, v: Variant, target: GenerationTarget, p: VariantPlan) -> bool {
    &&& *p.ident == v.ident
    &&& match v.fields.style {
        Style::Unit => p.body is Unit,
        Style::Tuple => p.body == VariantBody::Newtype(&v.fields.fields@[0].ty),
        Style::Struct => p.body matches VariantBody::Struct(defs) && defs@.len() == kept_plain_fields(
            v.fields.fields@,
            target,
        ).len() && forall|i: int|
            0 <= i < defs@.len() ==> is_field_definition(
                owner,
                kept_plain_fields(v.fields.fields@, target)[i],
                Some(v.ident@),
                target,
                #[trigger] defs@[i],
            ),
    }
}

/// The enum generated for `target` from the enum `base`: named `<base><suffix>`, with the
/// variants kept for the target.
pub fn generate_enum<'a>(
    base: &str,
    variants: &'a Vec<Variant>,
    tag: Option<&'a String>,
    target: GenerationTarget,
) -> (r: EnumPlan<'a>)
    requires
        forall|i: int| 0 <= i < variants@.len() ==> is_checked_variant(#[trigger] variants@[i]),
    ensures
        r.ident@ == base@ + suffix_of(target),
        r.tag == tag,
        r.variants@.len() == kept_variants(variants@, target).len(),
        forall|i: int|
            0 <= i < r.variants@.len() ==> is_variant_plan(
                r.ident@,
                kept_variants(variants@, target)[i],
                target,
                #[trigger] r.variants@[i],
            ),
{
    let ident = generated_ident(base, target);
    let mut out: Vec<VariantPlan<'a>> = Vec::new();
    let mut i: usize = 0;
    while i < variants.len()
        invariant
            i <= variants.len(),
            ident@ == base@ + suffix_of(target),
            forall|k: int| 0 <= k < variants@.len() ==> is_checked_variant(#[trigger] variants@[k]),
            out@.len() == kept_variants(variants@.take(i as int), target).len(),
            forall|j: int|
                0 <= j < out@.len() ==> is_variant_plan(
                    ident@,
                    kept_variants(variants@.take(i as int), target)[j],
                    target,
                    #[trigger] out@[j],
                ),
        decreases variants.len() - i,
    {
        proof {
            assert(variants@.take(i + 1).drop_last() =~= variants@.take(i as int));
            assert(variants@.take(i + 1).last() == variants@[i as int]);
        }
        let v = &variants[i];
        if !target.should_skip(v) {
            proof {
                assert(is_checked_variant(variants@[i as int]));
            }
            let body = match v.fields.style {
                Style::Unit => VariantBody::Unit,
                Style::Tuple => VariantBody::Newtype(&v.fields.fields[0].ty),
                Style::Struct => VariantBody::Struct(
                    variant_field_definitions(ident.as_str(), &v.fields.fields, Some(v.ident.as_str()), target),
                ),
            };
            out.push(VariantPlan { ident: &v.ident, body });
        }
        i = i + 1;
    }
    proof {
        assert(variants@.take(variants.len() as int) =~= variants@);
    }
    EnumPlan { ident, tag, variants: out }
}

/// The kind of a subcommand entry of the configuration struct.
#[derive(Debug)]
pub enum ConfigEntryKind<'a> {
    /// `Option<bool>`: `run = true` names the unit variant.
    Unit,
    /// The `Config` of the wrapped type.
    Newtype(&'a TypeModel),
    /// A struct of its own for a struct variant, named `<enum><variant>`, with the variant's
    /// kept fields and the functions reading them through value parsers.
    Inline { ident: String, fields: Vec<FieldDefinition<'a>>, deserialize_fns: Vec<String> },
}

/// A subcommand entry of the configuration struct, under the variant's snake-case name.
#[derive(Debug)]
pub struct ConfigEntryPlan<'a> {
    pub field_name: String,
    pub kind: ConfigEntryKind<'a>,
}

/// The configuration of a subcommand enum: named `<enum>Config`, with one entry for each kept
/// variant, and the layout its section is read under (`read_section`): the entries' keys, the
/// `fallback_command` key naming the command to run, and the tag of an internally tagged
/// section. A section may also be a bare command name; any other key is refused.
#[derive(Debug)]
pub struct ConfigStructPlan<'a> {
    pub ident: String,
    pub entries: Vec<ConfigEntryPlan<'a>>,
    pub layout: SectionLayout,
}

/// The names of the functions reading fields of a struct variant through value parsers.
pub open spec fn plain_deserialize_fn_names(fields: Seq<Field>) -> Seq<Seq<char>>
    decreases fields.len(),
{
    if fields.len() == 0 {
        Seq::empty()
    } else if !fields.last().skip && has_value_parser(fields.last().args@) {
        plain_deserialize_fn_names(fields.drop_last()).push(
            deserialize_fn_name_of(fields.last().ident->0@, None),
        )
    } else {
        plain_deserialize_fn_names(fields.drop_last())
    }
}

/// The functions reading fields of a struct variant through value parsers.
fn plain_deserialize_fns(fields: &Vec<Field>) -> (r: Vec<String>)
    requires
        forall|i: int| 0 <= i < fields@.len() ==> (#[trigger] fields@[i]).ident is Some,
    ensures
        r.deep_view() == plain_deserialize_fn_names(fields@),
{
    let mut r: Vec<String> = Vec::new();
    let mut i: usize = 0;
    proof {
        assert(r.deep_view() =~= plain_deserialize_fn_names(fields@.take(0)));
    }
    while i < fields.len()
        invariant
            i <= fields.len(),
            forall|k: int| 0 <= k < fields@.len() ==> (#[trigger] fields@[k]).ident is Some,
            r.deep_view() == plain_deserialize_fn_names(fields@.take(i as int)),
        decreases fields.len() - i,
    {
        proof {
            assert(fields@.take(i + 1).drop_last() =~= fields@.take(i as int));
            assert(fields@.take(i + 1).last() == fields@[i as int]);
        }
        if !GenerationTarget::Config.should_skip(&fields[i]) {
            match deserialize_fn_name(&fields[i], None) {
                Some(name) => {
                    let ghost before = r.deep_view();
                    r.push(name);
                    proof {
                        assert(r.deep_view() =~= before.push(name@));
                    }
                },
                None => {},
            }
        }
        i = i + 1;
    }
    proof {
        assert(fields@.take(fields.len() as int) =~= fields@);
    }
    r
}

/// Whether `e` is the configuration entry of the variant `v` of the enum `base`.
pub open spec fn is_config_entry(base: Seq<char>, v: Variant, e: ConfigEntryPlan) -> bool {
    &&& e.field_name@ == snake_case(v.ident@)
    &&& match v.fields.style {
        Style::Unit => e.kind is Unit,
        Style::Tuple => e.kind == ConfigEntryKind::Newtype(&v.fields.fields@[0].ty),
        Style::Struct => e.kind matches ConfigEntryKind::Inline { ident, fields, deserialize_fns }
            && ident@ == base + v.ident@ && fields@.len() == kept_plain_fields(
            v.fields.fields@,
            GenerationTarget::Config,
        ).len() && (forall|i: int|
            0 <= i < fields@.len() ==> is_field_definition(
                ident@,
                kept_plain_fields(v.fields.fields@, GenerationTarget::Config)[i],
                None,
                GenerationTarget::Config,
                #[trigger] fields@[i],
            )) && deserialize_fns.deep_view() == plain_deserialize_fn_names(v.fields.fields@),
    }
}

/// The configuration of the subcommand enum `base`, tagged by `tag` when it is given.
pub fn generate_config_struct<'a>(base: &str, variants: &'a Vec<Variant>, tag: Option<&String>) -> (r:
    ConfigStructPlan<'a>)
    requires
        forall|i: int| 0 <= i < variants@.len() ==> is_checked_variant(#[trigger] variants@[i]),
    ensures
        r.ident@ == base@ + "Config"@,
        r.layout.entries@.len() == r.entries@.len(),
        forall|i: int| 0 <= i < r.entries@.len() ==> #[trigger] r.layout.entries@[i] == r.entries@[i].field_name,
        r.layout.fallback_key@ == "fallback_command"@,
        r.layout.tag == match tag {
            Some(t) => Some(*t),
            None => None::<String>,
        },
        r.entries@.len() == kept_variants(variants@, GenerationTarget::Config).len(),
        forall|i: int|
            0 <= i < r.entries@.len() ==> is_config_entry(
                base@,
                kept_variants(variants@, GenerationTarget::Config)[i],
                #[trigger] r.entries@[i],
            ),
{
    let ident = generated_ident(base, GenerationTarget::Config);
    let mut out: Vec<ConfigEntryPlan<'a>> = Vec::new();
    let mut names: Vec<String> = Vec::new();
    let mut i: usize = 0;
    while i < variants.len()
        invariant
            i <= variants.len(),
            forall|k: int| 0 <= k < variants@.len() ==> is_checked_variant(#[trigger] variants@[k]),
            out@.len() == kept_variants(variants@.take(i as int), GenerationTarget::Config).len(),
            forall|j: int|
                0 <= j < out@.len() ==> is_config_entry(
                    base@,
                    kept_variants(variants@.take(i as int), GenerationTarget::Config)[j],
                    #[trigger] out@[j],
                ),
            names@.len() == out@.len(),
            forall|j: int| 0 <= j < out@.len() ==> #[trigger] names@[j] == out@[j].field_name,
        decreases variants.len() - i,
    {
        proof {
            assert(variants@.take(i + 1).drop_last() =~= variants@.take(i as int));
            assert(variants@.take(i + 1).last() == variants@[i as int]);
        }
        let v = &variants[i];
        if !GenerationTarget::Config.should_skip(v) {
            proof {
                assert(is_checked_variant(variants@[i as int]));
            }
            let field_name = to_snake_case(v.ident.as_str());
            names.push(field_name.clone());
            let kind = match v.fields.style {
                Style::Unit => ConfigEntryKind::Unit,
                Style::Tuple => ConfigEntryKind::Newtype(&v.fields.fields[0].ty),
                Style::Struct => {
                    let inline_ident = join2(base, v.ident.as_str());
                    let fields = variant_field_definitions(
                        inline_ident.as_str(),
                        &v.fields.fields,
                        None,
                        GenerationTarget::Config,
                    );
                    let deserialize_fns = plain_deserialize_fns(&v.fields.fields);
                    ConfigEntryKind::Inline { ident: inline_ident, fields, deserialize_fns }
                },
            };
            out.push(ConfigEntryPlan { field_name, kind });
        }
        i = i + 1;
    }
    proof {
        assert(variants@.take(variants.len() as int) =~= variants@);
    }
    let layout = SectionLayout {
        entries: names,
        fallback_key: String::from_str("fallback_command"),
        tag: match tag {
            Some(t) => Some(t.clone()),
            None => None,
        },
    };
    ConfigStructPlan { ident, entries: out, layout }
}


/// Whether `s` describes the field `f` of a subcommand's body at run time: keyed by its name,
/// with the flag its attributes give.
pub open spec fn is_field_spec(f: Field, s: FieldSpec) -> bool {
    &&& f.ident == Some(s.key)
    &&& match s.flag {
        Some(n) => first_flag_name(f.args@, f.ident->0@) == Some(n@),
        None => first_flag_name(f.args@, f.ident->0@) is None,
    }
}

/// The run-time description of named fields: each keyed by its name, with its flag.
pub fn field_specs(fields: &Vec<Field>) -> (r: Vec<FieldSpec>)
    requires
        forall|i: int| 0 <= i < fields@.len() ==> (#[trigger] fields@[i]).ident is Some,
    ensures
        r@.len() == fields@.len(),
        forall|i: int| 0 <= i < r@.len() ==> is_field_spec(fields@[i], #[trigger] r@[i]),
{
    let mut r: Vec<FieldSpec> = Vec::new();
    let mut i: usize = 0;
    while i < fields.len()
        invariant
            i <= fields.len(),
            forall|k: int| 0 <= k < fields@.len() ==> (#[trigger] fields@[k]).ident is Some,
            r@.len() == i,
            forall|j: int| 0 <= j < i ==> is_field_spec(fields@[j], #[trigger] r@[j]),
        decreases fields.len() - i,
    {
        let f = &fields[i];
        let key = f.ident.as_ref().unwrap();
        let flag = field_flag_name(&f.args, key.as_str());
        r.push(FieldSpec { key: key.clone(), flag });
        i = i + 1;
    }
    r
}

/// The shape of a variant's body.
pub open spec fn shape_of(style: Style) -> BodyShape {
    match style {
        Style::Unit => BodyShape::Unit,
        Style::Tuple => BodyShape::Newtype,
        Style::Struct => BodyShape::Struct,
    }
}

/// Whether `s` describes the variant `v` at run time: its identifier, its snake-case name in
/// the configuration, its kebab-case name on the command line, its shape, and its body's
/// fields (those of the wrapped struct, `inner`, for a variant wrapping one).
pub open spec fn is_variant_spec(v: Variant, inner: Seq<FieldSpec>, s: VariantSpec) -> bool {
    &&& s.ident == v.ident
    &&& s.config_name@ == snake_case(v.ident@)
    &&& s.cli_name@ == kebab_case(v.ident@)
    &&& s.shape == shape_of(v.fields.style)
    &&& match v.fields.style {
        Style::Unit => s.fields@.len() == 0,
        Style::Tuple => s.fields@ == inner,
        Style::Struct => s.fields@.len() == v.fields.fields@.len() && forall|i: int|
            0 <= i < s.fields@.len() ==> is_field_spec(v.fields.fields@[i], #[trigger] s.fields@[i]),
    }
}

/// The run-time description of a variant; `inner` describes the fields of the struct a
/// variant wrapping one wraps.
pub fn variant_spec(v: &Variant, inner: Vec<FieldSpec>) -> (r: VariantSpec)
    requires
        is_checked_variant(*v),
    ensures
        is_variant_spec(*v, inner@, r),
{
    let config_name = to_snake_case(v.ident.as_str());
    let cli_name = to_kebab_case(v.ident.as_str());
    let (shape, fields) = match v.fields.style {
        Style::Unit => (BodyShape::Unit, Vec::new()),
        Style::Tuple => (BodyShape::Newtype, inner),
        Style::Struct => (BodyShape::Struct, field_specs(&v.fields.fields)),
    };
    VariantSpec { ident: v.ident.clone(), config_name, cli_name, shape, fields }
}

/// How a variant of the intermediate enum turns into command-line arguments: its kebab-case
/// name, then its body.
#[derive(Debug)]
pub struct VariantArgsPlan {
    pub cli_name: String,
    pub body: ArgsBody,
}

/// How a variant's body turns into command-line arguments.
#[derive(Debug)]
pub enum ArgsBody {
    Unit,
    /// By the wrapped value's own conversion.
    Newtype,
    /// Field by field.
    Struct(Vec<IntoArgsStatement>),
}

/// Whether `p` turns the variant `v` into command-line arguments.
pub open spec fn is_variant_args_plan(v: Variant, p: VariantArgsPlan) -> bool {
    &&& p.cli_name@ == kebab_case(v.ident@)
    &&& match v.fields.style {
        Style::Unit => p.body is Unit,
        Style::Tuple => p.body is Newtype,
        Style::Struct => p.body matches ArgsBody::Struct(stmts) && stmts@.len() == v.fields.fields@.len()
            && forall|i: int|
            0 <= i < stmts@.len() ==> is_statement(v.fields.fields@[i], #[trigger] stmts@[i]),
    }
}

/// How every variant of the intermediate enum turns into command-line arguments.
pub fn variant_args_plans(variants: &Vec<Variant>) -> (r: Vec<VariantArgsPlan>)
    requires
        forall|i: int| 0 <= i < variants@.len() ==> is_checked_variant(#[trigger] variants@[i]),
    ensures
        r@.len() == variants@.len(),
        forall|i: int| 0 <= i < r@.len() ==> is_variant_args_plan(variants@[i], #[trigger] r@[i]),
{
    let mut r: Vec<VariantArgsPlan> = Vec::new();
    let mut i: usize = 0;
    while i < variants.len()
        invariant
            i <= variants.len(),
            forall|k: int| 0 <= k < variants@.len() ==> is_checked_variant(#[trigger] variants@[k]),
            r@.len() == i,
            forall|j: int| 0 <= j < i ==> is_variant_args_plan(variants@[j], #[trigger] r@[j]),
        decreases variants.len() - i,
    {
        let v = &variants[i];
        proof {
            assert(is_checked_variant(variants@[i as int]));
        }
        let body = match v.fields.style {
            Style::Unit => ArgsBody::Unit,
            Style::Tuple => ArgsBody::Newtype,
            Style::Struct => {
                let fs = &v.fields.fields;
                let mut stmts: Vec<IntoArgsStatement> = Vec::new();
                let mut j: usize = 0;
                while j < fs.len()
                    invariant
                        j <= fs.len(),
                        forall|k: int| 0 <= k < fs@.len() ==> (#[trigger] fs@[k]).ident is Some,
                        stmts@.len() == j,
                        forall|k: int| 0 <= k < j ==> is_statement(fs@[k], #[trigger] stmts@[k]),
                    decreases fs.len() - j,
                {
                    stmts.push(into_args_statement(&fs[j]));
                    j = j + 1;
                }
                ArgsBody::Struct(stmts)
            },
        };
        r.push(VariantArgsPlan { cli_name: to_kebab_case(v.ident.as_str()), body });
        i = i + 1;
    }
    r
}

/// How a subcommand matched by clap becomes a variant of the intermediate enum.
#[derive(Debug)]
pub enum MatchBody<'a> {
    Unit,
    /// From the wrapped type's intermediate struct, or its default when the command line gave
    /// none of its arguments, so that choosing the subcommand is always kept.
    Newtype(&'a TypeModel),
    /// Field by field.
    Struct(Vec<FromArgsKind<'a>>),
}

/// A subcommand matched by clap under its kebab-case name.
#[derive(Debug)]
pub struct VariantMatchPlan<'a> {
    pub cli_name: String,
    pub body: MatchBody<'a>,
}

/// Whether `p` builds the variant `v` of the intermediate enum from clap's matches.
pub open spec fn is_variant_match_plan(v: Variant, p: VariantMatchPlan) -> bool {
    &&& p.cli_name@ == kebab_case(v.ident@)
    &&& match v.fields.style {
        Style::Unit => p.body is Unit,
        Style::Tuple => p.body == MatchBody::Newtype(&v.fields.fields@[0].ty),
        Style::Struct => p.body matches MatchBody::Struct(kinds) && kinds@.len() == v.fields.fields@.len()
            && forall|i: int|
            0 <= i < kinds@.len() ==> is_from_args_kind(v.fields.fields@[i], #[trigger] kinds@[i]),
    }
}

/// How every variant of the intermediate enum is built from clap's matches.
pub fn variant_match_plans<'a>(variants: &'a Vec<Variant>) -> (r: Vec<VariantMatchPlan<'a>>)
    requires
        forall|i: int| 0 <= i < variants@.len() ==> is_checked_variant(#[trigger] variants@[i]),
    ensures
        r@.len() == variants@.len(),
        forall|i: int| 0 <= i < r@.len() ==> is_variant_match_plan(variants@[i], #[trigger] r@[i]),
{
    let mut r: Vec<VariantMatchPlan<'a>> = Vec::new();
    let mut i: usize = 0;
    while i < variants.len()
        invariant
            i <= variants.len(),
            forall|k: int| 0 <= k < variants@.len() ==> is_checked_variant(#[trigger] variants@[k]),
            r@.len() == i,
            forall|j: int| 0 <= j < i ==> is_variant_match_plan(variants@[j], #[trigger] r@[j]),
        decreases variants.len() - i,
    {
        let v = &variants[i];
        proof {
            assert(is_checked_variant(variants@[i as int]));
        }
        let body = match v.fields.style {
            Style::Unit => MatchBody::Unit,
            Style::Tuple => MatchBody::Newtype(&v.fields.fields[0].ty),
            Style::Struct => {
                let fs = &v.fields.fields;
                let mut kinds: Vec<FromArgsKind<'a>> = Vec::new();
                let mut j: usize = 0;
                while j < fs.len()
                    invariant
                        j <= fs.len(),
                        kinds@.len() == j,
                        forall|k: int| 0 <= k < j ==> is_from_args_kind(fs@[k], #[trigger] kinds@[k]),
                    decreases fs.len() - j,
                {
                    kinds.push(from_args_initializer(&fs[j]));
                    j = j + 1;
                }
                MatchBody::Struct(kinds)
            },
        };
        r.push(VariantMatchPlan { cli_name: to_kebab_case(v.ident.as_str()), body });
        i = i + 1;
    }
    r
}


/// The positions of the variants that take part in configuration fallback, in order.
pub open spec fn kept_variant_positions(vs: Seq<Variant>) -> Seq<usize>
    decreases vs.len(),
{
    if vs.len() == 0 {
        Seq::empty()
    } else if vs.last().skip {
        kept_variant_positions(vs.drop_last())
    } else {
        kept_variant_positions(vs.drop_last()).push((vs.len() - 1) as usize)
    }
}

/// The positions of the variants that take part in configuration fallback.
pub fn non_skipped_config_variants(variants: &Vec<Variant>) -> (r: Vec<usize>)
    ensures
        r@ == kept_variant_positions(variants@),
{
    let mut r: Vec<usize> = Vec::new();
    let mut i: usize = 0;
    while i < variants.len()
        invariant
            i <= variants.len(),
            r@ == kept_variant_positions(variants@.take(i as int)),
        decreases variants.len() - i,
    {
        proof {
            assert(variants@.take(i + 1).drop_last() =~= variants@.take(i as int));
            assert(variants@.take(i + 1).last() == variants@[i as int]);
        }
        if !GenerationTarget::Config.should_skip(&variants[i]) {
            r.push(i);
        }
        i = i + 1;
    }
    proof {
        assert(variants@.take(variants.len() as int) =~= variants@);
    }
    r
}

/// Generates the `Opts` and `Config` structs of a struct derive input, and their impls.
#[derive(Debug)]
pub struct StructGenerator<T: StructLike> {
    pub input: T,
}

impl<T: StructLike> StructGenerator<T> {
    /// Creates a new `StructGenerator` for the given derive input.
    pub fn new(input: T) -> (r: Self)
        ensures
            r.input == input,
    {
        StructGenerator { input }
    }
}

/// What the root-struct derive generates.
#[derive(Debug)]
pub struct ParserPlan<'a> {
    pub config: StructPlan<'a>,
    pub opts: StructPlan<'a>,
    pub deserialize_fns: Vec<String>,
    pub extend_args: Vec<IntoArgsStatement>,
    pub from_args: Vec<FromArgsKind<'a>>,
    /// The field naming the configuration file.
    pub config_path: Option<&'a String>,
    /// The format the path field forces.
    pub config_format: Option<crate::source::ConfigFormat>,
    /// The subcommand field taken out of the merge and resolved apart.
    pub command: Option<(&'a String, &'a TypeModel)>,
}

/// What the argument-struct derive generates.
#[derive(Debug)]
pub struct ArgsPlan<'a> {
    pub config: StructPlan<'a>,
    pub opts: StructPlan<'a>,
    pub deserialize_fns: Vec<String>,
    pub extend_args: Vec<IntoArgsStatement>,
    pub from_args: Vec<FromArgsKind<'a>>,
    pub merge: MergePlan<'a>,
}

/// Whether `p` is what is generated, for either derive, from the struct `base` with `fields`.
pub open spec fn is_struct_output(
    base: Seq<char>,
    fields: Seq<NamedField>,
    config: StructPlan,
    opts: StructPlan,
    deserialize_fns: Vec<String>,
    extend_args: Vec<IntoArgsStatement>,
    from_args: Vec<FromArgsKind>,
) -> bool {
    &&& is_struct_plan(base, fields, GenerationTarget::Config, config)
    &&& is_struct_plan(base, fields, GenerationTarget::Opts, opts)
    &&& deserialize_fns.deep_view() == deserialize_fn_names(fields)
    &&& extend_args@.len() == fields.len()
    &&& forall|i: int| 0 <= i < fields.len() ==> is_statement(fields[i]@, #[trigger] extend_args@[i])
    &&& from_args@.len() == fields.len()
    &&& forall|i: int| 0 <= i < fields.len() ==> is_from_args_kind(fields[i]@, #[trigger] from_args@[i])
}

impl StructGenerator<ConfigParser> {
    /// What the root-struct derive generates: the configuration and intermediate structs,
    /// their conversions, the path and format of the configuration file, and the subcommand
    /// field resolved apart from the merge.
    pub fn generate(&self) -> (r: ParserPlan)
        ensures
            is_struct_output(
                self.input.ident@,
                self.input.fields@,
                r.config,
                r.opts,
                r.deserialize_fns,
                r.extend_args,
                r.from_args,
            ),
            match path_position(self.input.fields@) {
                Some(i) => r.config_path matches Some(n) && self.input.fields@[i]@.ident == Some(*n)
                    && r.config_format == crate::source::forced_format(self.input.fields@[i]@.format),
                None => r.config_path is None && r.config_format is None,
            },
            match subcommand_position(self.input.fields@) {
                Some(i) => r.command matches Some((n, t)) && self.input.fields@[i]@.ident == Some(*n)
                    && *t == unwrapped(self.input.fields@[i]@.ty),
                None => r.command is None,
            },
    {
        let ident = self.input.ident.as_str();
        let fields = &self.input.fields;
        ParserPlan {
            config: generate_struct(ident, fields, GenerationTarget::Config),
            opts: generate_struct(ident, fields, GenerationTarget::Opts),
            deserialize_fns: deserialize_fns(fields),
            extend_args: extend_args_plan(fields),
            from_args: from_args_plan(fields),
            config_path: config_path_field(fields),
            config_format: config_format_override(fields),
            command: command_field(fields),
        }
    }
}

impl StructGenerator<ConfigArgs> {
    /// What the argument-struct derive generates: the configuration and intermediate structs,
    /// their conversions, and the merge of the configuration into the intermediate struct.
    pub fn generate(&self) -> (r: ArgsPlan)
        ensures
            is_struct_output(
                self.input.0.ident@,
                self.input.0.fields@,
                r.config,
                r.opts,
                r.deserialize_fns,
                r.extend_args,
                r.from_args,
            ),
            r.merge.merged@.map_values(|s: &String| *s) == merged_names(self.input.0.fields@),
            r.merge.from_cli@.map_values(|s: &String| *s) == structured_names(self.input.0.fields@),
    {
        let ident = self.input.0.ident.as_str();
        let fields = &self.input.0.fields;
        ArgsPlan {
            config: generate_struct(ident, fields, GenerationTarget::Config),
            opts: generate_struct(ident, fields, GenerationTarget::Opts),
            deserialize_fns: deserialize_fns(fields),
            extend_args: extend_args_plan(fields),
            from_args: from_args_plan(fields),
            merge: merge_plan(fields),
        }
    }
}

/// Generates the `Opts` enum and the `Config` struct of a subcommand enum, and their impls.
#[derive(Debug)]
pub struct EnumGenerator<T: EnumLike> {
    pub input: T,
}

impl<T: EnumLike> EnumGenerator<T> {
    /// Creates a new `EnumGenerator` for the given derive input.
    pub fn new(input: T) -> (r: Self)
        ensures
            r.input == input,
    {
        EnumGenerator { input }
    }
}

/// What the subcommand derive generates.
#[derive(Debug)]
pub struct SubcommandPlan<'a> {
    /// The intermediate enum, which has every variant.
    pub opts: EnumPlan<'a>,
    /// The configuration struct, with one entry for each variant that takes part.
    pub config: ConfigStructPlan<'a>,
    /// The positions of the variants the command merge knows.
    pub merged_variants: Vec<usize>,
    pub extend_args: Vec<VariantArgsPlan>,
    pub from_args: Vec<VariantMatchPlan<'a>>,
}

impl EnumGenerator<ConfigSubcommand> {
    /// What the subcommand derive generates: the intermediate enum, the configuration struct,
    /// the command merge, and the conversions between clap's matches, the enum and arguments.
    pub fn generate(&self) -> (r: SubcommandPlan)
        requires
            forall|i: int|
                0 <= i < self.input.variants@.len() ==> is_checked_variant(
                    #[trigger] self.input.variants@[i],
                ),
        ensures
            r.opts.ident@ == self.input.ident@ + "Opts"@,
            r.opts.tag == match self.input.tag {
                Some(t) => Some(&t),
                None => None::<&String>,
            },
            r.opts.variants@.len() == self.input.variants@.len(),
            forall|i: int|
                0 <= i < r.opts.variants@.len() ==> is_variant_plan(
                    r.opts.ident@,
                    kept_variants(self.input.variants@, GenerationTarget::Opts)[i],
                    GenerationTarget::Opts,
                    #[trigger] r.opts.variants@[i],
                ),
            r.config.ident@ == self.input.ident@ + "Config"@,
            r.config.layout.entries@.len() == r.config.entries@.len(),
            forall|i: int|
                0 <= i < r.config.entries@.len() ==> #[trigger] r.config.layout.entries@[i]
                    == r.config.entries@[i].field_name,
            r.config.layout.fallback_key@ == "fallback_command"@,
            r.config.layout.tag == self.input.tag,
            r.config.entries@.len() == kept_variants(self.input.variants@, GenerationTarget::Config).len(),
            forall|i: int|
                0 <= i < r.config.entries@.len() ==> is_config_entry(
                    self.input.ident@,
                    kept_variants(self.input.variants@, GenerationTarget::Config)[i],
                    #[trigger] r.config.entries@[i],
                ),
            r.merged_variants@ == kept_variant_positions(self.input.variants@),
            r.extend_args@.len() == self.input.variants@.len(),
            forall|i: int|
                0 <= i < r.extend_args@.len() ==> is_variant_args_plan(
                    self.input.variants@[i],
                    #[trigger] r.extend_args@[i],
                ),
            r.from_args@.len() == self.input.variants@.len(),
            forall|i: int|
                0 <= i < r.from_args@.len() ==> is_variant_match_plan(
                    self.input.variants@[i],
                    #[trigger] r.from_args@[i],
                ),
    {
        let ident = self.input.ident.as_str();
        let variants = &self.input.variants;
        let tag = self.input.tag();
        proof {
            lemma_kept_variants_opts(variants@);
        }
        SubcommandPlan {
            opts: generate_enum(ident, variants, tag, GenerationTarget::Opts),
            config: generate_config_struct(ident, variants, tag),
            merged_variants: non_skipped_config_variants(variants),
            extend_args: variant_args_plans(variants),
            from_args: variant_match_plans(variants),
        }
    }
}

/// The intermediate enum keeps every variant.
pub proof fn lemma_kept_variants_opts(vs: Seq<Variant>)
    ensures
        kept_variants(vs, GenerationTarget::Opts) == vs,
    decreases vs.len(),
{
    if vs.len() > 0 {
        lemma_kept_variants_opts(vs.drop_last());
        assert(vs.drop_last().push(vs.last()) =~= vs);
    }
}

} // verus!
