//! The derive input as the derives read it: the annotated struct or enum, its fields and
//! variants, and the checks and corrections applied once it has been read.

use vstd::prelude::*;
use crate::clap_attr::{AttributeModel, ClapArg, ClapCommand};
use crate::types::{ExprModel, TypeModel, type_is, type_is_option_of};

verus! {

/// The `format` of the configuration file named by the path field.
#[derive(Debug, Clone, Copy, PartialEq, Eq, Structural)]
pub enum ConfigFormat {
    Toml,
    Yaml,
    Json,
    /// Inferred from the file's extension.
    Auto,
}

impl Default for ConfigFormat {
    fn default() -> (r: Self)
        ensures
            r == ConfigFormat::Auto,
    {
        ConfigFormat::Auto
    }
}

/// Where configuration values enter clap's chain of fallbacks.
#[derive(Debug, Clone, Copy, PartialEq, Eq, Structural)]
pub enum ConfigPrecedence {
    /// CLI > Env > Default > Config
    AfterDefault,
    /// CLI > Env > Config > Default
    BeforeDefault,
    /// CLI > Config > Env > Default
    BeforeEnv,
}

impl Default for ConfigPrecedence {
    fn default() -> (r: Self)
        ensures
            r == ConfigPrecedence::BeforeDefault,
    {
        ConfigPrecedence::BeforeDefault
    }
}

/// Derive nodes that can be left out of the generated configuration types.
pub trait Skippable {
    /// Whether this node is left out.
    spec fn skipped(&self) -> bool;

    /// Whether this node is left out of the generated configuration types.
    fn is_skipped(&self) -> (r: bool)
        ensures
            r == self.skipped(),
    ;
}

/// A field of a struct or of a struct variant, with its attributes.
#[derive(Debug)]
pub struct Field {
    /// The field's name; tuple fields have none.
    pub ident: Option<String>,
    pub ty: TypeModel,
    /// The forwarded `#[arg(..)]` and `#[command(..)]` attributes, as written.
    pub attrs: Vec<AttributeModel>,
    /// The `#[arg(..)]` attributes, read.
    pub args: Vec<ClapArg>,
    /// The `#[command(..)]` attributes, read.
    pub commands: Vec<ClapCommand>,
    /// `#[config(skip)]`, or inherited from `#[config(skip_all)]`.
    pub skip: bool,
    /// `#[config(path)]`: the field naming the configuration file.
    pub path: bool,
    /// `#[config(format = "..")]`.
    pub format: Option<ConfigFormat>,
    /// `#[config(value_format = ..)]`.
    pub value_format: Option<ExprModel>,
    /// `#[config(precedence = "..")]`, or the type's precedence.
    pub precedence: ConfigPrecedence,
    /// `#[config(no_flatten)]`.
    pub no_flatten: bool,
    /// `#[config(alias = "..")]` and `#[config(aliases = [..])]`.
    pub aliases: Vec<String>,
}

/// The message for a path field of a type that cannot name a file.
pub open spec fn path_type_message() -> Seq<char> {
    "`#[config(path)]` requires a field of type `String`, `Option<String>`, `PathBuf` or `Option<PathBuf>`"@
}

/// The message for configuration aliases on a field flattened in the configuration.
pub open spec fn flattened_alias_message() -> Seq<char> {
    "`#[config(alias)]` and `#[config(aliases)]` are not allowed on fields flattened in config"@
}

/// Whether a field is flattened in the configuration (`#[command(flatten)]` without
/// `#[config(no_flatten)]`) and yet gives configuration aliases.
pub open spec fn is_flattened_with_aliases(f: Field) -> bool {
    has_command(f.commands@, ClapCommand::Flatten) && !f.no_flatten && f.aliases@.len() > 0
}

/// Whether a type can hold the path of the configuration file.
pub open spec fn is_path_type(t: TypeModel) -> bool {
    type_is(t, "String"@) || type_is_option_of(t, "String"@) || type_is(t, "PathBuf"@)
        || type_is_option_of(t, "PathBuf"@)
}

/// Whether a command list holds `c`.
pub open spec fn has_command(cs: Seq<ClapCommand>, c: ClapCommand) -> bool {
    exists|i: int| 0 <= i < cs.len() && cs[i] == c
}

impl Skippable for Field {
    open spec fn skipped(&self) -> bool {
        self.skip
    }

    fn is_skipped(&self) -> (r: bool) {
        self.skip
    }
}

impl Field {
    /// The field's name.
    pub fn ident(&self) -> (r: Option<&String>)
        ensures
            r == match self.ident {
                Some(s) => Some(&s),
                None => None::<&String>,
            },
    {
        match &self.ident {
            Some(s) => Some(s),
            None => None,
        }
    }

    /// The field's type.
    pub fn ty(&self) -> (r: &TypeModel)
        ensures
            *r == self.ty,
    {
        &self.ty
    }

    /// The forwarded attributes.
    pub fn attributes(&self) -> (r: &Vec<AttributeModel>)
        ensures
            *r == self.attrs,
    {
        &self.attrs
    }

    /// Whether this field names the configuration file.
    pub fn is_path(&self) -> (r: bool)
        ensures
            r == self.path,
    {
        self.path
    }

    /// The configuration file's format, when one is given.
    pub fn format(&self) -> (r: Option<ConfigFormat>)
        ensures
            r == self.format,
    {
        self.format
    }

    /// How the field's value is formatted into an argument, when given.
    pub fn value_format(&self) -> (r: Option<&ExprModel>)
        ensures
            r == match self.value_format {
                Some(e) => Some(&e),
                None => None::<&ExprModel>,
            },
    {
        match &self.value_format {
            Some(e) => Some(e),
            None => None,
        }
    }

    /// The field's `#[command(..)]` attributes.
    pub fn commands(&self) -> (r: &Vec<ClapCommand>)
        ensures
            *r == self.commands,
    {
        &self.commands
    }

    /// The field's `#[arg(..)]` attributes.
    pub fn args(&self) -> (r: &Vec<ClapArg>)
        ensures
            *r == self.args,
    {
        &self.args
    }

    /// The field's configuration-only aliases.
    pub fn aliases(&self) -> (r: &Vec<String>)
        ensures
            *r == self.aliases,
    {
        &self.aliases
    }

    /// The field's precedence.
    pub fn precedence(&self) -> (r: ConfigPrecedence)
        ensures
            r == self.precedence,
    {
        self.precedence
    }

    /// Whether this is a structured field: one with a `#[command(..)]` attribute.
    pub fn is_structured(&self) -> (r: bool)
        ensures
            r == (self.commands@.len() > 0),
    {
        self.commands.len() > 0
    }

    /// Whether the field's `#[command(..)]` attributes include `c`.
    pub fn has_command(&self, c: ClapCommand) -> (r: bool)
        ensures
            r == has_command(self.commands@, c),
    {
        let mut i: usize = 0;
        while i < self.commands.len()
            invariant
                i <= self.commands.len(),
                forall|j: int| 0 <= j < i ==> self.commands@[j] != c,
            decreases self.commands.len() - i,
        {
            if self.commands[i] == c {
                return true;
            }
            i = i + 1;
        }
        false
    }

    /// Whether the field's section is flattened into its parent in the configuration:
    /// `#[command(flatten)]` without `#[config(no_flatten)]`.
    pub fn flatten(&self) -> (r: bool)
        ensures
            r == (has_command(self.commands@, ClapCommand::Flatten) && !self.no_flatten),
    {
        self.has_command(ClapCommand::Flatten) && !self.no_flatten
    }

    /// Checks the field once read: a path field must have a type that can name a file, and a
    /// field flattened in the configuration takes no configuration aliases (its keys are those
    /// of its own fields).
    pub fn autocorrect(self) -> (r: Result<Field, String>)
        ensures
            self.path && !is_path_type(self.ty) ==> (r matches Err(e) && e@ == path_type_message()),
            !(self.path && !is_path_type(self.ty)) && is_flattened_with_aliases(self) ==> (r matches Err(
                e,
            ) && e@ == flattened_alias_message()),
            !(self.path && !is_path_type(self.ty)) && !is_flattened_with_aliases(self) ==> r == Ok::<
                Field,
                String,
            >(self),
    {
        if self.path && !(self.ty.is("String") || self.ty.is_option_of("String") || self.ty.is(
            "PathBuf",
        ) || self.ty.is_option_of("PathBuf")) {
            return Err(
                String::from_str(
                    "`#[config(path)]` requires a field of type `String`, `Option<String>`, `PathBuf` or `Option<PathBuf>`",
                ),
            );
        }
        if self.flatten() && self.aliases.len() > 0 {
            return Err(
                String::from_str(
                    "`#[config(alias)]` and `#[config(aliases)]` are not allowed on fields flattened in config",
                ),
            );
        }
        Ok(self)
    }
}

/// A field that has a name.
#[derive(Debug)]
pub struct NamedField(Field);

/// The message for a tuple field where named fields are required.
pub open spec fn tuple_field_message() -> Seq<char> {
    "tuple fields are not supported"@
}

impl Skippable for NamedField {
    open spec fn skipped(&self) -> bool {
        self.view().skip
    }

    fn is_skipped(&self) -> (r: bool) {
        self.0.skip
    }
}

impl View for NamedField {
    type V = Field;

    closed spec fn view(&self) -> Field {
        self.0
    }
}

impl NamedField {
    #[verifier::type_invariant]
    spec fn has_name(self) -> bool {
        self.0.ident is Some
    }

    /// Accepts a field that has a name.
    pub fn try_from(field: Field) -> (r: Result<NamedField, String>)
        ensures
            field.ident is None ==> (r matches Err(e) && e@ == tuple_field_message()),
            field.ident is Some ==> (r matches Ok(n) && n@ == field),
    {
        if field.ident.is_none() {
            Err(String::from_str("tuple fields are not supported"))
        } else {
            Ok(NamedField(field))
        }
    }

    /// The field.
    pub fn field(&self) -> (r: &Field)
        ensures
            *r == self@,
            r.ident is Some,
    {
        proof {
            use_type_invariant(self);
        }
        &self.0
    }

    /// The field's name.
    pub fn ident(&self) -> (r: &String)
        ensures
            self@.ident == Some(*r),
    {
        proof {
            use_type_invariant(self);
        }
        self.0.ident.as_ref().unwrap()
    }

    /// The same field, left out of the configuration types when `skip` holds or it already was.
    pub fn skip_also(self, skip: bool) -> (r: NamedField)
        ensures
            r@ == (Field { skip: self@.skip || skip, ..self@ }),
    {
        proof {
            use_type_invariant(&self);
        }
        let NamedField(mut f) = self;
        f.skip = f.skip || skip;
        NamedField(f)
    }
}


/// How the fields of a variant are written.
#[derive(Debug, Clone, Copy, PartialEq, Eq, Structural)]
pub enum Style {
    Unit,
    Tuple,
    Struct,
}

/// The fields of a variant.
#[derive(Debug)]
pub struct Fields {
    pub style: Style,
    pub fields: Vec<Field>,
}

/// A variant of a subcommand enum.
#[derive(Debug)]
pub struct Variant {
    pub ident: String,
    pub fields: Fields,
    /// `#[config(skip)]`, or inherited from `#[config(skip_all)]`.
    pub skip: bool,
}

/// The kind of a variant: without fields, wrapping one type, or with named fields.
#[derive(Debug)]
pub enum VariantKind<'a> {
    Unit,
    Newtype(&'a TypeModel),
    Struct(&'a Vec<Field>),
}

/// The message for a tuple variant of other than one field.
pub open spec fn tuple_variant_message() -> Seq<char> {
    "tuple enums are not supported"@
}

/// The message for a field without a name in a struct variant.
pub open spec fn unnamed_field_message() -> Seq<char> {
    "struct enums requires named fields"@
}

/// Whether a variant wraps exactly one type.
pub open spec fn is_newtype(v: Variant) -> bool {
    v.fields.style == Style::Tuple && v.fields.fields@.len() == 1
}

/// Whether a variant is of a supported form: without fields, wrapping one type, or with named
/// fields.
pub open spec fn is_supported_variant(v: Variant) -> bool {
    v.fields.style != Style::Tuple || v.fields.fields@.len() == 1
}

/// Whether a variant wraps `()`.
pub open spec fn wraps_unit(v: Variant) -> bool {
    is_newtype(v) && (v.fields.fields@[0].ty matches crate::types::TypeModel::Tuple(elems) && elems@.len() == 0)
}

/// Whether `c` is the variant `v` as corrected: one wrapping `()` is read as a variant without
/// fields; any other is unchanged.
pub open spec fn is_corrected(v: Variant, c: Variant) -> bool {
    if wraps_unit(v) {
        &&& c.ident == v.ident
        &&& c.skip == v.skip
        &&& c.fields.style == Style::Unit
        &&& c.fields.fields@.len() == 0
    } else {
        c == v
    }
}

/// The errors found in a corrected variant: a tuple variant of other than one field, then one
/// error for each field without a name in a struct variant.
pub open spec fn variant_errors(v: Variant) -> Seq<Seq<char>> {
    (if v.fields.style == Style::Tuple && v.fields.fields@.len() != 1 {
        seq![tuple_variant_message()]
    } else {
        Seq::empty()
    }) + (if v.fields.style == Style::Struct {
        unnamed_errors(v.fields.fields@)
    } else {
        Seq::empty()
    })
}

/// One error for each field without a name.
pub open spec fn unnamed_errors(fs: Seq<Field>) -> Seq<Seq<char>>
    decreases fs.len(),
{
    if fs.len() == 0 {
        Seq::empty()
    } else if fs.last().ident is None {
        unnamed_errors(fs.drop_last()).push(unnamed_field_message())
    } else {
        unnamed_errors(fs.drop_last())
    }
}

impl Skippable for Variant {
    open spec fn skipped(&self) -> bool {
        self.skip
    }

    fn is_skipped(&self) -> (r: bool) {
        self.skip
    }
}

impl Variant {
    /// The variant's identifier.
    pub fn ident(&self) -> (r: &String)
        ensures
            *r == self.ident,
    {
        &self.ident
    }

    /// Whether the variant has no fields.
    pub fn is_unit(&self) -> (r: bool)
        ensures
            r == (self.fields.style == Style::Unit),
    {
        self.fields.style == Style::Unit
    }

    /// The wrapped type, when the variant wraps exactly one.
    pub fn as_newtype(&self) -> (r: Option<&TypeModel>)
        ensures
            is_newtype(*self) ==> r == Some(&self.fields.fields@[0].ty),
            !is_newtype(*self) ==> r is None,
    {
        if self.fields.style == Style::Tuple && self.fields.fields.len() == 1 {
            Some(&self.fields.fields[0].ty)
        } else {
            None
        }
    }

    /// The named fields, when the variant has them.
    pub fn as_struct(&self) -> (r: Option<&Vec<Field>>)
        ensures
            self.fields.style == Style::Struct ==> r == Some(&self.fields.fields),
            self.fields.style != Style::Struct ==> r is None,
    {
        if self.fields.style == Style::Struct {
            Some(&self.fields.fields)
        } else {
            None
        }
    }

    /// The kind of the variant.
    pub fn kind(&self) -> (r: VariantKind)
        requires
            is_supported_variant(*self),
        ensures
            self.fields.style == Style::Unit ==> r is Unit,
            is_newtype(*self) ==> r == VariantKind::Newtype(&self.fields.fields@[0].ty),
            self.fields.style == Style::Struct ==> r == VariantKind::Struct(&self.fields.fields),
    {
        if self.is_unit() {
            VariantKind::Unit
        } else if let Some(ty) = self.as_newtype() {
            VariantKind::Newtype(ty)
        } else {
            VariantKind::Struct(&self.fields.fields)
        }
    }

    /// Checks and corrects the variant once read: a variant wrapping `()` becomes a variant
    /// without fields; a tuple variant of other than one field, and fields without a name in a
    /// struct variant, are errors, all of which are reported.
    pub fn autocorrect(self) -> (r: Result<Variant, Vec<String>>)
        ensures
            wraps_unit(self) ==> (r matches Ok(c) && is_corrected(self, c)),
            !wraps_unit(self) && variant_errors(self).len() == 0 ==> r == Ok::<Variant, Vec<String>>(self),
            !wraps_unit(self) && variant_errors(self).len() > 0 ==> (r matches Err(es) && es.deep_view()
                == variant_errors(self)),
    {
        let mut v = self;
        let is_unit_newtype = match v.as_newtype() {
            Some(ty) => ty.is_unit(),
            None => false,
        };
        if is_unit_newtype {
            v.fields = Fields { style: Style::Unit, fields: Vec::new() };
        }
        proof {
            assert(is_corrected(self, v));
            if is_unit_newtype {
                assert(variant_errors(v) =~= Seq::<Seq<char>>::empty());
            }
        }
        let mut errors: Vec<String> = Vec::new();
        if v.fields.style == Style::Tuple && v.fields.fields.len() != 1 {
            errors.push(String::from_str("tuple enums are not supported"));
        }
        let ghost head = errors.deep_view();
        if v.fields.style == Style::Struct {
            let mut i: usize = 0;
            while i < v.fields.fields.len()
                invariant
                    i <= v.fields.fields@.len(),
                    errors.deep_view() == head + unnamed_errors(v.fields.fields@.take(i as int)),
                decreases v.fields.fields.len() - i,
            {
                let ghost before = errors.deep_view();
                if v.fields.fields[i].ident.is_none() {
                    errors.push(String::from_str("struct enums requires named fields"));
                }
                proof {
                    let fs = v.fields.fields@;
                    assert(fs.take(i + 1).drop_last() =~= fs.take(i as int));
                    assert(fs.take(i + 1).last() == fs[i as int]);
                    if fs[i as int].ident is None {
                        assert(errors.deep_view() =~= before.push(unnamed_field_message()));
                    }
                    assert(errors.deep_view() =~= head + unnamed_errors(fs.take(i + 1)));
                }
                i = i + 1;
            }
            proof {
                assert(v.fields.fields@.take(v.fields.fields@.len() as int) =~= v.fields.fields@);
            }
        }
        proof {
            assert(errors.deep_view() =~= variant_errors(v));
        }
        if errors.len() == 0 {
            Ok(v)
        } else {
            Err(errors)
        }
    }
}

/// Identifiers and fields of a struct-like derive input.
pub trait StructLike {
    /// The struct's identifier.
    spec fn spec_ident(&self) -> String;

    /// The struct's fields.
    spec fn spec_fields(&self) -> Seq<NamedField>;

    /// Identifier of the struct.
    fn ident(&self) -> (r: &String)
        ensures
            *r == self.spec_ident(),
    ;

    /// Fields of the struct.
    fn fields(&self) -> (r: &Vec<NamedField>)
        ensures
            r@ == self.spec_fields(),
    ;
}

/// The input of the root-struct derive: a struct with named fields.
#[derive(Debug)]
pub struct ConfigParser {
    pub ident: String,
    pub fields: Vec<NamedField>,
    /// `#[config(skip_all)]`.
    pub skip_all: bool,
}

/// The input of the argument-struct derive, read as the root-struct derive reads it.
#[derive(Debug)]
pub struct ConfigArgs(pub ConfigParser);

/// Whether `after` are the fields `before`, each left out of the configuration types when
/// `skip_all` holds.
pub open spec fn skips_propagated(before: Seq<NamedField>, after: Seq<NamedField>, skip_all: bool) -> bool {
    &&& after.len() == before.len()
    &&& forall|i: int|
        0 <= i < before.len() ==> (#[trigger] after[i])@ == (Field {
            skip: before[i]@.skip || skip_all,
            ..before[i]@
        })
}

impl StructLike for ConfigParser {
    open spec fn spec_ident(&self) -> String {
        self.ident
    }

    open spec fn spec_fields(&self) -> Seq<NamedField> {
        self.fields@
    }

    fn ident(&self) -> (r: &String) {
        &self.ident
    }

    fn fields(&self) -> (r: &Vec<NamedField>) {
        &self.fields
    }
}

impl StructLike for ConfigArgs {
    open spec fn spec_ident(&self) -> String {
        self.0.ident
    }

    open spec fn spec_fields(&self) -> Seq<NamedField> {
        self.0.fields@
    }

    fn ident(&self) -> (r: &String) {
        &self.0.ident
    }

    fn fields(&self) -> (r: &Vec<NamedField>) {
        &self.0.fields
    }
}

impl ConfigParser {
    /// Propagates `#[config(skip_all)]` to every field.
    pub fn autocorrect(self) -> (r: Result<ConfigParser, String>)
        ensures
            r matches Ok(p) && p.ident == self.ident && p.skip_all == self.skip_all
                && skips_propagated(self.fields@, p.fields@, self.skip_all),
    {
        let ConfigParser { ident, fields, skip_all } = self;
        let ghost all = fields@;
        let mut rest = fields;
        let mut out: Vec<NamedField> = Vec::new();
        while rest.len() > 0
            invariant
                out.len() <= all.len(),
                rest@ == all.skip(out.len() as int),
                forall|i: int|
                    0 <= i < out.len() ==> (#[trigger] out@[i])@ == (Field {
                        skip: all[i]@.skip || skip_all,
                        ..all[i]@
                    }),
            decreases rest.len(),
        {
            let f = rest.remove(0);
            proof {
                assert(f == all[out.len() as int]);
            }
            out.push(f.skip_also(skip_all));
            proof {
                assert(rest@ =~= all.skip(out.len() as int));
            }
        }
        Ok(ConfigParser { ident, fields: out, skip_all })
    }
}

/// Identifiers and variants of an enum-like derive input.
pub trait EnumLike {
    /// The enum's identifier.
    spec fn spec_ident(&self) -> String;

    /// The enum's variants.
    spec fn spec_variants(&self) -> Seq<Variant>;

    /// The tag of the internally tagged representation, when there is one.
    spec fn spec_tag(&self) -> Option<String>;

    /// Identifier of the enum.
    fn ident(&self) -> (r: &String)
        ensures
            *r == self.spec_ident(),
    ;

    /// Variants of the enum.
    fn variants(&self) -> (r: &Vec<Variant>)
        ensures
            r@ == self.spec_variants(),
    ;

    /// Tag to use for internally tagged enums.
    fn tag(&self) -> (r: Option<&String>)
        ensures
            r == match self.spec_tag() {
                Some(t) => Some(&t),
                None => None::<&String>,
            },
    ;
}

/// The input of the subcommand derive: an enum of subcommands.
#[derive(Debug)]
pub struct ConfigSubcommand {
    pub ident: String,
    pub variants: Vec<Variant>,
    /// `#[config(skip_all)]`.
    pub skip_all: bool,
    /// `#[config(tag = "..")]`: the key naming the variant in an internally tagged section.
    pub tag: Option<String>,
}

impl EnumLike for ConfigSubcommand {
    open spec fn spec_ident(&self) -> String {
        self.ident
    }

    open spec fn spec_variants(&self) -> Seq<Variant> {
        self.variants@
    }

    open spec fn spec_tag(&self) -> Option<String> {
        self.tag
    }

    fn ident(&self) -> (r: &String) {
        &self.ident
    }

    fn variants(&self) -> (r: &Vec<Variant>) {
        &self.variants
    }

    fn tag(&self) -> (r: Option<&String>) {
        match &self.tag {
            Some(t) => Some(t),
            None => None,
        }
    }
}

impl ConfigSubcommand {
    /// Propagates `#[config(skip_all)]` to every variant.
    pub fn autocorrect(self) -> (r: Result<ConfigSubcommand, String>)
        ensures
            r matches Ok(c) && c.ident == self.ident && c.tag == self.tag && c.skip_all
                == self.skip_all && c.variants@.len() == self.variants@.len() && forall|i: int|
                0 <= i < self.variants@.len() ==> (#[trigger] c.variants@[i]) == (Variant {
                    skip: self.variants@[i].skip || self.skip_all,
                    ..self.variants@[i]
                }),
    {
        let ConfigSubcommand { ident, variants, skip_all, tag } = self;
        let ghost all = variants@;
        let mut rest = variants;
        let mut out: Vec<Variant> = Vec::new();
        while rest.len() > 0
            invariant
                out.len() <= all.len(),
                rest@ == all.skip(out.len() as int),
                forall|i: int|
                    0 <= i < out.len() ==> (#[trigger] out@[i]) == (Variant {
                        skip: all[i].skip || skip_all,
                        ..all[i]
                    }),
            decreases rest.len(),
        {
            let mut v = rest.remove(0);
            proof {
                assert(v == all[out.len() as int]);
            }
            v.skip = v.skip || skip_all;
            out.push(v);
            proof {
                assert(rest@ =~= all.skip(out.len() as int));
            }
        }
        Ok(ConfigSubcommand { ident, variants: out, skip_all, tag })
    }
}

} // verus!
