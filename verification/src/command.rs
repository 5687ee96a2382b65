//! Subcommand resolution: the command chosen on the command line always wins, and the
//! configuration only supplies fallback values for it, or names a command to run when the
//! command line chose none.

use vstd::prelude::*;
use crate::opts::{FieldValue, OptsField, OptsRecord, CommandOpts, merge_records, is_fallback_merge};
use crate::text::str_eq;

verus! {

/// The shape of a subcommand variant's body.
#[derive(Debug, Clone, Copy, PartialEq, Eq, Structural)]
pub enum BodyShape {
    /// A variant without fields.
    Unit,
    /// A variant wrapping one argument struct.
    Newtype,
    /// A variant with named fields.
    Struct,
}

/// A field of a subcommand's body: its configuration key and its flag on the command line.
#[derive(Debug)]
pub struct FieldSpec {
    pub key: String,
    pub flag: Option<String>,
}

/// A subcommand variant that takes part in configuration fallback.
#[derive(Debug)]
pub struct VariantSpec {
    /// The variant's identifier.
    pub ident: String,
    /// The key of the variant in the configuration (its identifier in snake case).
    pub config_name: String,
    /// The name of the subcommand on the command line (its identifier in kebab case).
    pub cli_name: String,
    pub shape: BodyShape,
    /// The fields of the variant's body, in order (none for a unit variant).
    pub fields: Vec<FieldSpec>,
}

/// The value of one subcommand entry of the configuration.
#[derive(Debug)]
pub enum EntryValue {
    /// A unit variant's entry, such as `run = true`.
    Flag(bool),
    /// A variant's section of fallback values.
    Record(OptsRecord),
}

/// One subcommand entry of the configuration, under the variant's configuration key.
#[derive(Debug)]
pub struct CommandEntry {
    pub name: String,
    pub value: EntryValue,
}

/// The configuration of a subcommand field: the variants that take part, the entries the
/// configuration holds for them, and the command to run when the command line names none.
#[derive(Debug)]
pub struct CommandConfig {
    pub variants: Vec<VariantSpec>,
    pub entries: Vec<CommandEntry>,
    pub fallback_command: Option<String>,
}

/// Merges configuration fallback into the command chosen on the command line.
pub trait MergeCommand: Sized {
    /// The chosen-command type.
    type CommandOpts;

    /// Whether `r` is the outcome of merging this configuration into `cli_command`.
    spec fn merges_to(
        &self,
        cli_command: Option<Self::CommandOpts>,
        r: Result<Option<Self::CommandOpts>, String>,
    ) -> bool;

    /// Merges config fallback into the command-line command selection.
    fn merge_command(self, cli_command: Option<Self::CommandOpts>) -> (r: Result<
        Option<Self::CommandOpts>,
        String,
    >)
        ensures
            self.merges_to(cli_command, r),
    ;
}

impl MergeCommand for () {
    type CommandOpts = ();

    open spec fn merges_to(&self, cli_command: Option<()>, r: Result<Option<()>, String>) -> bool {
        r == Ok::<Option<()>, String>(cli_command)
    }

    fn merge_command(self, cli_command: Option<()>) -> (r: Result<Option<()>, String>) {
        Ok(cli_command)
    }
}

impl Default for CommandConfig {
    /// The configuration of a command field the configuration file says nothing about.
    fn default() -> (r: Self)
        ensures
            r.variants@.len() == 0,
            r.entries@.len() == 0,
            r.fallback_command is None,
    {
        CommandConfig { variants: Vec::new(), entries: Vec::new(), fallback_command: None }
    }
}

/// The first variant named `name` on the command line.
pub open spec fn variant_by_cli_name(vs: Seq<VariantSpec>, name: Seq<char>) -> Option<VariantSpec>
    decreases vs.len(),
{
    if vs.len() == 0 {
        None
    } else if vs[0].cli_name@ == name {
        Some(vs[0])
    } else {
        variant_by_cli_name(vs.drop_first(), name)
    }
}

/// Whether `r` is the subcommand clap matched under `name`, with the body clap gave for it.
pub open spec fn is_selected_command(
    vs: Seq<VariantSpec>,
    name: Seq<char>,
    body: Option<OptsRecord>,
    r: Option<CommandOpts>,
) -> bool {
    match variant_by_cli_name(vs, name) {
        Some(v) => r matches Some(c) && c.variant == v.ident && c.cli_name == v.cli_name && if v.shape
            == BodyShape::Unit {
            c.body.fields@.len() == 0
        } else {
            match body {
                Some(b) => c.body == b,
                None => is_blank_body(v.fields@, c.body.fields@),
            }
        },
        None => r is None,
    }
}

/// The variant of the intermediate enum for the subcommand clap matched under `name`: its body
/// is the options clap gave for it, or, when it gave none, the variant's fields all absent, so
/// that choosing the subcommand is always kept. A unit variant has no body. No variant is
/// chosen when none has that name.
pub fn select_command(variants: &Vec<VariantSpec>, name: &str, body: Option<OptsRecord>) -> (r: Option<
    CommandOpts,
>)
    ensures
        is_selected_command(variants@, name@, body, r),
{
    let mut i: usize = 0;
    proof {
        assert(variants@.skip(0) =~= variants@);
    }
    while i < variants.len()
        invariant
            i <= variants.len(),
            variant_by_cli_name(variants@, name@) == variant_by_cli_name(variants@.skip(i as int), name@),
        decreases variants.len() - i,
    {
        proof {
            assert(variants@.skip(i as int)[0] == variants@[i as int]);
            assert(variants@.skip(i as int).drop_first() =~= variants@.skip(i + 1));
        }
        let v = &variants[i];
        if crate::text::str_eq(v.cli_name.as_str(), name) {
            let body = if v.shape == BodyShape::Unit {
                OptsRecord { fields: Vec::new() }
            } else {
                match body {
                    Some(b) => b,
                    None => blank_body(&v.fields),
                }
            };
            return Some(CommandOpts { variant: v.ident.clone(), cli_name: v.cli_name.clone(), body });
        }
        i = i + 1;
    }
    None
}

/// The first variant with identifier `ident`.
pub open spec fn variant_by_ident(vs: Seq<VariantSpec>, ident: Seq<char>) -> Option<VariantSpec>
    decreases vs.len(),
{
    if vs.len() == 0 {
        None
    } else if vs[0].ident@ == ident {
        Some(vs[0])
    } else {
        variant_by_ident(vs.drop_first(), ident)
    }
}

/// The first variant with configuration key `name`.
pub open spec fn variant_by_config_name(vs: Seq<VariantSpec>, name: Seq<char>) -> Option<
    VariantSpec,
>
    decreases vs.len(),
{
    if vs.len() == 0 {
        None
    } else if vs[0].config_name@ == name {
        Some(vs[0])
    } else {
        variant_by_config_name(vs.drop_first(), name)
    }
}

/// The fallback fields of the first entry named `name` that holds a section; none otherwise.
pub open spec fn entry_fields(es: Seq<CommandEntry>, name: Seq<char>) -> Seq<OptsField>
    decreases es.len(),
{
    if es.len() == 0 {
        Seq::empty()
    } else {
        match es[0].value {
            EntryValue::Record(r) if es[0].name@ == name => r.fields@,
            _ => entry_fields(es.drop_first(), name),
        }
    }
}

/// The body fields of a variant with every value absent.
pub open spec fn is_blank_body(spec: Seq<FieldSpec>, body: Seq<OptsField>) -> bool {
    &&& body.len() == spec.len()
    &&& forall|i: int|
        0 <= i < spec.len() ==> {
            &&& (#[trigger] body[i]).key == spec[i].key
            &&& body[i].flag == spec[i].flag
            &&& body[i].value is None
        }
}

/// The message of the error for an unknown fallback command.
pub open spec fn unknown_command_message(name: Seq<char>) -> Seq<char> {
    "unknown fallback command: "@ + name
}

/// The message of the error for configuration entries without a command to run.
pub open spec fn ambiguous_command_message() -> Seq<char> {
    "no command was given on the command line, and the configuration names none to run"@
}

/// Whether `m` is the command `cli` with its body completed from the configuration's entry
/// for its variant; a unit variant or one that takes no part in fallback is kept as it is.
pub open spec fn is_merged_cli_command(
    variants: Seq<VariantSpec>,
    entries: Seq<CommandEntry>,
    cli: CommandOpts,
    m: CommandOpts,
) -> bool {
    match variant_by_ident(variants, cli.variant@) {
        Some(v) => if v.shape == BodyShape::Unit {
            m == cli
        } else {
            &&& m.variant == cli.variant
            &&& m.cli_name == cli.cli_name
            &&& is_fallback_merge(cli.body.fields@, entry_fields(entries, v.config_name@), m.body.fields@)
        },
        None => m == cli,
    }
}

/// Whether `m` is the variant `v` run by the configuration, its body taken from the
/// configuration's entry for it.
pub open spec fn is_promoted_command(
    v: VariantSpec,
    entries: Seq<CommandEntry>,
    m: CommandOpts,
) -> bool {
    &&& m.variant@ == v.ident@
    &&& m.cli_name@ == v.cli_name@
    &&& exists|blank: Seq<OptsField>|
        is_blank_body(v.fields@, blank) && is_fallback_merge(
            blank,
            entry_fields(entries, v.config_name@),
            m.body.fields@,
        )
}

impl MergeCommand for CommandConfig {
    type CommandOpts = CommandOpts;

    /// A command chosen on the command line always wins, completed with the configuration's
    /// values. Without one, the configuration's fallback command is run when it names a variant,
    /// and is an error otherwise; without either, entries in the configuration are an error, and
    /// no command results when there are none.
    open spec fn merges_to(
        &self,
        cli_command: Option<CommandOpts>,
        r: Result<Option<CommandOpts>, String>,
    ) -> bool {
        match cli_command {
            Some(c) => r matches Ok(Some(m)) && is_merged_cli_command(self.variants@, self.entries@, c, m),
            None => match self.fallback_command {
                Some(name) => match variant_by_config_name(self.variants@, name@) {
                    Some(v) => r matches Ok(Some(m)) && is_promoted_command(v, self.entries@, m),
                    None => r matches Err(e) && e@ == unknown_command_message(name@),
                },
                None => if self.entries@.len() == 0 {
                    r matches Ok(None)
                } else {
                    r matches Err(e) && e@ == ambiguous_command_message()
                },
            },
        }
    }

    fn merge_command(self, cli_command: Option<CommandOpts>) -> (r: Result<Option<CommandOpts>, String>) {
        let CommandConfig { variants, entries, fallback_command } = self;
        match cli_command {
            Some(c) => {
                match find_by_ident(&variants, &c.variant) {
                    Some(i) => {
                        let v = &variants[i];
                        if v.shape == BodyShape::Unit {
                            Ok(Some(c))
                        } else {
                            let cfg = take_entry_record(entries, &v.config_name);
                            let body = merge_records(c.body, &cfg);
                            Ok(Some(CommandOpts { variant: c.variant, cli_name: c.cli_name, body }))
                        }
                    },
                    None => Ok(Some(c)),
                }
            },
            None => match &fallback_command {
                Some(name) => match find_by_config_name(&variants, name) {
                    Some(i) => {
                        let v = &variants[i];
                        let blank = blank_body(&v.fields);
                        let cfg = take_entry_record(entries, &v.config_name);
                        let ghost blank_fields = blank.fields@;
                        let body = merge_records(blank, &cfg);
                        let m = CommandOpts {
                            variant: v.ident.clone(),
                            cli_name: v.cli_name.clone(),
                            body,
                        };
                        proof {
                            assert(is_blank_body(v.fields@, blank_fields));
                        }
                        Ok(Some(m))
                    },
                    None => {
                        let msg = String::from_str("unknown fallback command: ").concat(name.as_str());
                        Err(msg)
                    },
                },
                None => {
                    if entries.len() == 0 {
                        Ok(None)
                    } else {
                        Err(String::from_str("no command was given on the command line, and the configuration names none to run"))
                    }
                },
            },
        }
    }
}

/// The index of the first variant with identifier `ident`.
fn find_by_ident(vs: &Vec<VariantSpec>, ident: &String) -> (r: Option<usize>)
    ensures
        match r {
            Some(i) => i < vs.len() && variant_by_ident(vs@, ident@) == Some(vs@[i as int]),
            None => variant_by_ident(vs@, ident@) is None,
        },
{
    let mut i: usize = 0;
    proof {
        assert(vs@.skip(0) =~= vs@);
    }
    while i < vs.len()
        invariant
            i <= vs.len(),
            variant_by_ident(vs@, ident@) == variant_by_ident(vs@.skip(i as int), ident@),
        decreases vs.len() - i,
    {
        proof {
            assert(vs@.skip(i as int)[0] == vs@[i as int]);
            assert(vs@.skip(i as int).drop_first() =~= vs@.skip(i + 1));
        }
        if vs[i].ident == *ident {
            return Some(i);
        }
        i = i + 1;
    }
    None
}

/// The index of the first variant with configuration key `name`.
fn find_by_config_name(vs: &Vec<VariantSpec>, name: &String) -> (r: Option<usize>)
    ensures
        match r {
            Some(i) => i < vs.len() && variant_by_config_name(vs@, name@) == Some(vs@[i as int]),
            None => variant_by_config_name(vs@, name@) is None,
        },
{
    let mut i: usize = 0;
    proof {
        assert(vs@.skip(0) =~= vs@);
    }
    while i < vs.len()
        invariant
            i <= vs.len(),
            variant_by_config_name(vs@, name@) == variant_by_config_name(vs@.skip(i as int), name@),
        decreases vs.len() - i,
    {
        proof {
            assert(vs@.skip(i as int)[0] == vs@[i as int]);
            assert(vs@.skip(i as int).drop_first() =~= vs@.skip(i + 1));
        }
        if vs[i].config_name == *name {
            return Some(i);
        }
        i = i + 1;
    }
    None
}

/// A copy of an optional text.
pub(crate) fn copy_opt_text(s: &Option<String>) -> (r: Option<String>)
    ensures
        r == *s,
{
    match s {
        Some(t) => Some(t.clone()),
        None => None,
    }
}

/// The fallback section of the first entry named `name` that holds one; an empty section
/// otherwise.
fn take_entry_record(es: Vec<CommandEntry>, name: &String) -> (r: OptsRecord)
    ensures
        r.fields@ == entry_fields(es@, name@),
{
    let mut i: usize = 0;
    proof {
        assert(es@.skip(0) =~= es@);
    }
    while i < es.len()
        invariant
            i <= es.len(),
            entry_fields(es@, name@) == entry_fields(es@.skip(i as int), name@),
        decreases es.len() - i,
    {
        proof {
            assert(es@.skip(i as int)[0] == es@[i as int]);
            assert(es@.skip(i as int).drop_first() =~= es@.skip(i + 1));
        }
        if es[i].name == *name {
            if let EntryValue::Record(_) = &es[i].value {
                let mut es = es;
                let e = es.remove(i);
                match e.value {
                    EntryValue::Record(r) => {
                        return r;
                    },
                    EntryValue::Flag(_) => {
                        return OptsRecord { fields: Vec::new() };
                    },
                }
            }
        }
        i = i + 1;
    }
    OptsRecord { fields: Vec::new() }
}

/// A body with the given fields, every value absent.
fn blank_body(spec: &Vec<FieldSpec>) -> (r: OptsRecord)
    ensures
        is_blank_body(spec@, r.fields@),
{
    let mut out: Vec<OptsField> = Vec::new();
    let mut i: usize = 0;
    while i < spec.len()
        invariant
            i <= spec.len(),
            out.len() == i,
            forall|j: int|
                0 <= j < i ==> {
                    &&& (#[trigger] out@[j]).key == spec@[j].key
                    &&& out@[j].flag == spec@[j].flag
                    &&& out@[j].value is None
                },
        decreases spec.len() - i,
    {
        out.push(OptsField { key: spec[i].key.clone(), flag: copy_opt_text(&spec[i].flag), value: None });
        i = i + 1;
    }
    OptsRecord { fields: out }
}

/// The keys a subcommand's configuration section may hold.
#[derive(Debug)]
pub struct SectionLayout {
    /// The keys of the variants' entries (their snake-case names), in order.
    pub entries: Vec<String>,
    /// The key naming the command to run when the command line names none.
    pub fallback_key: String,
    /// For an internally tagged section, the key naming its variant.
    pub tag: Option<String>,
}

/// What a subcommand's configuration section holds, as read from the file.
#[derive(Debug)]
pub enum SectionShape {
    /// A bare name, such as `command = "serve"`.
    Name(String),
    /// A table with these keys; `tag_value` is the text under the layout's tag key, when the
    /// layout has one and the table holds text there.
    Table { keys: Vec<String>, tag_value: Option<String> },
    /// Any other value.
    Other,
}

/// How a subcommand's configuration section is read.
#[derive(Debug)]
pub enum SectionReading {
    /// A bare name: the command to run when the command line names none.
    Name(String),
    /// Entries under the variants' keys, and the fallback command under its key.
    Entries,
    /// An internally tagged section: the variant its tag names (by its entry key), whose values
    /// are the section's other keys.
    Tagged(String),
}

/// The message for a section that is neither a name nor a table.
pub open spec fn invalid_section_message() -> Seq<char> {
    "a subcommand section must be a command name or a table"@
}

/// The message for a key that no variant and no setting of the section has.
pub open spec fn unknown_key_message(key: Seq<char>) -> Seq<char> {
    "unknown key in subcommand section: "@ + key
}

/// The message for an internally tagged section without its tag.
pub open spec fn missing_tag_message(tag: Seq<char>) -> Seq<char> {
    "missing tag in subcommand section: "@ + tag
}

/// The message for a tag that names no variant taking part in fallback.
pub open spec fn unknown_tag_message(value: Seq<char>) -> Seq<char> {
    "unknown subcommand in tag: "@ + value
}

/// Whether a key may stand in an externally tagged section: a variant's entry or the fallback
/// key.
pub open spec fn is_known_key(layout: SectionLayout, key: Seq<char>) -> bool {
    layout.entries.deep_view().contains(key) || key == layout.fallback_key@
}

/// The first key of `keys` the section may not hold.
pub open spec fn first_unknown_key(layout: SectionLayout, keys: Seq<Seq<char>>) -> Option<Seq<char>>
    decreases keys.len(),
{
    if keys.len() == 0 {
        None
    } else if !is_known_key(layout, keys[0]) {
        Some(keys[0])
    } else {
        first_unknown_key(layout, keys.drop_first())
    }
}

/// Whether `r` is how the section `shape` is read under `layout`. A bare name is kept as the
/// command to run. A table without a tag may hold only the variants' entries and the fallback
/// key; the first other key is an error. A tagged table must name, under its tag, a variant
/// taking part in fallback. Anything else is an error.
pub open spec fn is_section_reading(layout: SectionLayout, shape: SectionShape, r: Result<SectionReading, String>) -> bool {
    match shape {
        SectionShape::Name(n) => r matches Ok(SectionReading::Name(m)) && m@ == n@,
        SectionShape::Other => r matches Err(e) && e@ == invalid_section_message(),
        SectionShape::Table { keys, tag_value } => match layout.tag {
            None => match first_unknown_key(layout, keys.deep_view()) {
                Some(k) => r matches Err(e) && e@ == unknown_key_message(k),
                None => r matches Ok(SectionReading::Entries),
            },
            Some(t) => match tag_value {
                None => r matches Err(e) && e@ == missing_tag_message(t@),
                Some(v) => if layout.entries.deep_view().contains(v@) {
                    r matches Ok(SectionReading::Tagged(w)) && w@ == v@
                } else {
                    r matches Err(e) && e@ == unknown_tag_message(v@)
                },
            },
        },
    }
}

/// Whether `key` is one of `texts`.
fn text_among(texts: &Vec<String>, key: &String) -> (r: bool)
    ensures
        r == texts.deep_view().contains(key@),
{
    let mut i: usize = 0;
    while i < texts.len()
        invariant
            i <= texts.len(),
            forall|j: int| 0 <= j < i ==> texts.deep_view()[j] != key@,
        decreases texts.len() - i,
    {
        if texts[i] == *key {
            proof {
                assert(texts.deep_view()[i as int] == key@);
            }
            return true;
        }
        i = i + 1;
    }
    proof {
        if texts.deep_view().contains(key@) {
            let j = choose|j: int| 0 <= j < texts.deep_view().len() && texts.deep_view()[j] == key@;
            assert(texts.deep_view()[j] != key@);
        }
    }
    false
}

/// Reads a subcommand's configuration section under `layout`: a bare name, a table of
/// variants' entries (which refuses any other key), or an internally tagged table.
pub fn read_section(layout: &SectionLayout, shape: &SectionShape) -> (r: Result<SectionReading, String>)
    ensures
        is_section_reading(*layout, *shape, r),
{
    match shape {
        SectionShape::Name(n) => Ok(SectionReading::Name(n.clone())),
        SectionShape::Other => Err(String::from_str("a subcommand section must be a command name or a table")),
        SectionShape::Table { keys, tag_value } => match &layout.tag {
            None => {
                let mut i: usize = 0;
                proof {
                    assert(keys.deep_view().skip(0) =~= keys.deep_view());
                }
                while i < keys.len()
                    invariant
                        i <= keys.len(),
                        *shape == (SectionShape::Table { keys: *keys, tag_value: *tag_value }),
                        layout.tag is None,
                        first_unknown_key(*layout, keys.deep_view()) == first_unknown_key(
                            *layout,
                            keys.deep_view().skip(i as int),
                        ),
                    decreases keys.len() - i,
                {
                    proof {
                        assert(keys.deep_view().skip(i as int)[0] == keys.deep_view()[i as int]);
                        assert(keys.deep_view().skip(i as int).drop_first() =~= keys.deep_view().skip(i + 1));
                    }
                    let k = &keys[i];
                    let known = text_among(&layout.entries, k) || *k == layout.fallback_key;
                    proof {
                        assert(keys.deep_view()[i as int] == k@);
                        assert(known == is_known_key(*layout, k@));
                    }
                    if !known {
                        let e = String::from_str("unknown key in subcommand section: ").concat(k.as_str());
                        proof {
                            assert(first_unknown_key(*layout, keys.deep_view().skip(i as int)) == Some(k@));
                            assert(first_unknown_key(*layout, keys.deep_view()) == Some(k@));
                            assert(e@ == unknown_key_message(k@));
                        }
                        return Err(e);
                    }
                    i = i + 1;
                }
                proof {
                    assert(keys.deep_view().skip(i as int).len() == 0);
                }
                Ok(SectionReading::Entries)
            },
            Some(t) => match tag_value {
                None => Err(String::from_str("missing tag in subcommand section: ").concat(t.as_str())),
                Some(v) => {
                    if text_among(&layout.entries, v) {
                        Ok(SectionReading::Tagged(v.clone()))
                    } else {
                        Err(String::from_str("unknown subcommand in tag: ").concat(v.as_str()))
                    }
                },
            },
        },
    }
}

/// The configuration of a subcommand field, from how its section was read. A bare name runs
/// that command when the command line names none; a tagged section runs the variant it names,
/// with the values it gives (the `entries` read from it); a table of entries runs the command
/// its fallback key names, if any.
pub fn command_config(
    variants: Vec<VariantSpec>,
    reading: SectionReading,
    entries: Vec<CommandEntry>,
    fallback: Option<String>,
) -> (r: CommandConfig)
    ensures
        r.variants == variants,
        match reading {
            SectionReading::Name(n) => r.entries@.len() == 0 && r.fallback_command == Some(n),
            SectionReading::Entries => r.entries == entries && r.fallback_command == fallback,
            SectionReading::Tagged(v) => r.entries == entries && r.fallback_command == Some(v),
        },
{
    match reading {
        SectionReading::Name(n) => CommandConfig { variants, entries: Vec::new(), fallback_command: Some(n) },
        SectionReading::Entries => CommandConfig { variants, entries, fallback_command: fallback },
        SectionReading::Tagged(v) => CommandConfig { variants, entries, fallback_command: Some(v) },
    }
}

} // verus!
