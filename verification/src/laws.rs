//! The promises the library keeps across its functions, proved over their contracts.

use vstd::prelude::*;
use crate::clap_attr::{is_denied, is_sanitized, keeps_arg, kept_positions, Sanitized};
use crate::command::{
    entry_fields, first_unknown_key, is_section_reading, is_selected_command, variant_by_cli_name,
    variant_by_ident, BodyShape, CommandEntry,
    SectionLayout, SectionReading, SectionShape, VariantSpec,
    ambiguous_command_message, is_merged_cli_command, is_promoted_command, unknown_command_message,
    variant_by_config_name, CommandConfig, MergeCommand,
};
use crate::clap_attr::ClapCommand;
use crate::generator::{
    is_config_entry, is_field_definition, kept_fields, kept_plain_fields, ConfigEntryKind,
    ConfigEntryPlan, FieldDefinition, GenerationTarget,
};
use crate::input::{Field, NamedField, Style, Variant, skips_propagated};
use crate::opts::{config_value, is_fallback_merge, CommandOpts, FieldValue, OptsField};
use crate::parse::{
    command_value, key_position, lemma_key_position_bounds, put_back, resolves,
    took_command, with_config, FallbackError,
};
use crate::opts::OptsRecord;
use crate::types::{ExprModel, expr_ident};

verus! {

/// The command line wins: every value the command line gave is kept by the merge.
pub proof fn law_cli_value_wins(cli: Seq<OptsField>, cfg: Seq<OptsField>, merged: Seq<OptsField>, i: int)
    requires
        is_fallback_merge(cli, cfg, merged),
        0 <= i < cli.len(),
        cli[i].value is Some,
    ensures
        merged[i].value == cli[i].value,
{
    assert(crate::opts::fallback_field(cli[i], cfg, merged[i]));
}

/// Configuration values are fallback values: a field the command line left absent takes the
/// configuration's value for its key, and stays absent when the configuration has none.
pub proof fn law_config_fills_absent(cli: Seq<OptsField>, cfg: Seq<OptsField>, merged: Seq<OptsField>, i: int)
    requires
        is_fallback_merge(cli, cfg, merged),
        0 <= i < cli.len(),
        cli[i].value is None,
    ensures
        match config_value(cfg, cli[i].key@) {
            Some(v) => merged[i].value matches Some(FieldValue::Arg(w)) && w.same_as(v),
            None => merged[i].value is None,
        },
{
    assert(crate::opts::fallback_field(cli[i], cfg, merged[i]));
}

/// Without configuration values, parsing behaves like plain clap parsing: merging an empty
/// configuration leaves the command line's options exactly as they were.
pub proof fn law_empty_config_keeps_cli(cli: Seq<OptsField>, merged: Seq<OptsField>)
    requires
        is_fallback_merge(cli, Seq::empty(), merged),
    ensures
        merged == cli,
{
    assert forall|i: int| 0 <= i < cli.len() implies merged[i] == cli[i] by {
        assert(crate::opts::fallback_field(cli[i], Seq::empty(), merged[i]));
    }
    assert(merged =~= cli);
}

/// Merging settles: merging the same configuration into an already merged record changes
/// nothing.
pub proof fn law_merge_settles(
    cli: Seq<OptsField>,
    cfg: Seq<OptsField>,
    once: Seq<OptsField>,
    twice: Seq<OptsField>,
)
    requires
        is_fallback_merge(cli, cfg, once),
        is_fallback_merge(once, cfg, twice),
    ensures
        twice == once,
{
    assert forall|i: int| 0 <= i < once.len() implies twice[i] == once[i] by {
        assert(crate::opts::fallback_field(cli[i], cfg, once[i]));
        assert(crate::opts::fallback_field(once[i], cfg, twice[i]));
    }
    assert(twice =~= once);
}

/// The command chosen on the command line always wins: the resolved command is that variant,
/// under the same command-line name, and every value the command line gave it is kept.
pub proof fn law_cli_command_wins(
    cfg: CommandConfig,
    c: CommandOpts,
    r: Result<Option<CommandOpts>, String>,
)
    requires
        cfg.merges_to(Some(c), r),
    ensures
        r matches Ok(Some(m)) && m.variant == c.variant && m.cli_name == c.cli_name
            && m.body.fields@.len() == c.body.fields@.len() && forall|i: int|
            0 <= i < c.body.fields@.len() && (#[trigger] c.body.fields@[i]).value is Some
                ==> m.body.fields@[i].value == c.body.fields@[i].value,
{
    let m = r->Ok_0->Some_0;
    assert(is_merged_cli_command(cfg.variants@, cfg.entries@, c, m));
    assert forall|i: int|
        0 <= i < c.body.fields@.len() && (#[trigger] c.body.fields@[i]).value is Some
            implies m.body.fields@[i].value == c.body.fields@[i].value by {
        match crate::command::variant_by_ident(cfg.variants@, c.variant@) {
            Some(v) => {
                if v.shape != crate::command::BodyShape::Unit {
                    assert(crate::opts::fallback_field(
                        c.body.fields@[i],
                        crate::command::entry_fields(cfg.entries@, v.config_name@),
                        m.body.fields@[i],
                    ));
                }
            },
            None => {},
        }
    }
}

/// Without a command on the command line, a fallback command naming a variant runs that
/// variant, one naming none is an error, and without a fallback command configuration entries
/// are an error while no entries give no command.
pub proof fn law_fallback_command(cfg: CommandConfig, r: Result<Option<CommandOpts>, String>)
    requires
        cfg.merges_to(None, r),
    ensures
        match cfg.fallback_command {
            Some(name) => match variant_by_config_name(cfg.variants@, name@) {
                Some(v) => r matches Ok(Some(m)) && m.variant@ == v.ident@ && m.cli_name@ == v.cli_name@,
                None => r matches Err(e) && e@ == unknown_command_message(name@),
            },
            None => if cfg.entries@.len() == 0 {
                r == Ok::<Option<CommandOpts>, String>(None)
            } else {
                r matches Err(e) && e@ == ambiguous_command_message()
            },
        },
{
}

/// A subcommand section that is a bare name, such as `command = "serve"`, runs the variant of
/// that name when the command line names none, and is an error when no variant has it.
pub proof fn law_bare_name_runs_command(
    layout: SectionLayout,
    name: String,
    reading: SectionReading,
    cfg: CommandConfig,
    r: Result<Option<CommandOpts>, String>,
)
    requires
        is_section_reading(layout, SectionShape::Name(name), Ok(reading)),
        reading matches SectionReading::Name(n) ==> cfg.entries@.len() == 0 && cfg.fallback_command
            == Some(n),
        cfg.merges_to(None, r),
    ensures
        match variant_by_config_name(cfg.variants@, name@) {
            Some(v) => r matches Ok(Some(m)) && m.variant@ == v.ident@ && m.cli_name@ == v.cli_name@,
            None => r matches Err(e) && e@ == unknown_command_message(name@),
        },
{
}

/// Fields with the same keys, in the same order, have the same first field for every key.
proof fn lemma_same_keys(s: Seq<OptsField>, t: Seq<OptsField>, key: Seq<char>)
    requires
        s.len() == t.len(),
        forall|j: int| 0 <= j < s.len() ==> #[trigger] s[j].key == t[j].key,
    ensures
        key_position(s, key) == key_position(t, key),
    decreases s.len(),
{
    if s.len() > 0 {
        assert(s[0].key == t[0].key);
        lemma_same_keys(s.drop_first(), t.drop_first(), key);
    }
}

/// Taking the subcommand out of the options and putting it back restores them, when the
/// subcommand field (the first field with the command's key) holds a command or nothing.
pub proof fn law_take_put_restores(
    before: Seq<OptsField>,
    key: Seq<char>,
    taken: Seq<OptsField>,
    c: Option<CommandOpts>,
)
    requires
        took_command(before, Some(key), taken, c),
        key_position(before, key) matches Some(i) ==> (before[i].value is None || before[i].value
            matches Some(FieldValue::Command(_))),
    ensures
        put_back(taken, Some(key), c, before),
{
    lemma_key_position_bounds(before, key);
    match key_position(before, key) {
        Some(i) => {
            assert forall|j: int| 0 <= j < before.len() implies #[trigger] before[j].key == taken[j].key by {
                if j == i {
                } else {
                }
            }
            lemma_same_keys(before, taken, key);
            assert(taken.update(i, OptsField { value: command_value(c), ..taken[i] }) =~= before);
        },
        None => {},
    }
}

/// Without a configuration file the parse is clap's own: the options the command line gave come
/// back as they were, its command included, when the subcommand field holds a command or
/// nothing.
pub proof fn law_no_config_keeps_cli(
    opts: OptsRecord,
    key: Option<Seq<char>>,
    config_command: CommandConfig,
    r: Result<OptsRecord, FallbackError>,
)
    requires
        config_command.variants@.len() == 0,
        config_command.entries@.len() == 0,
        config_command.fallback_command is None,
        resolves(opts, key, None, config_command, r),
        key matches Some(k) ==> (key_position(opts.fields@, k) matches Some(i) ==> (
        opts.fields@[i].value is None || opts.fields@[i].value matches Some(FieldValue::Command(_)))),
    ensures
        r matches Ok(m) && m.fields@ == opts.fields@,
{
    let before = opts.fields@;
    match r {
        Ok(m) => {
            let (taken, cli, merged, resolved) = choose|taken: Seq<OptsField>, cli: Option<CommandOpts>, merged: Seq<OptsField>, resolved: Option<CommandOpts>|
                #![trigger took_command(before, key, taken, cli), with_config(taken, None, merged), put_back(merged, key, resolved, m.fields@)]
                took_command(before, key, taken, cli)
                    && with_config(taken, None, merged)
                    && config_command.merges_to(cli, Ok(resolved))
                    && put_back(merged, key, resolved, m.fields@);
            assert(merged == taken);
            assert(resolved == cli);
            match key {
                Some(k) => {
                    law_take_put_restores(before, k, taken, cli);
                },
                None => {},
            }
        },
        Err(e) => {
            let (taken, cli) = choose|taken: Seq<OptsField>, cli: Option<CommandOpts>|
                #![trigger took_command(before, key, taken, cli)]
                took_command(before, key, taken, cli) && config_command.merges_to(cli, Err(e.message));
        },
    }
}

/// The intermediate struct keeps every field: skipping only concerns the configuration.
pub proof fn law_opts_keeps_every_field(fields: Seq<NamedField>)
    ensures
        kept_fields(fields, GenerationTarget::Opts) == fields,
    decreases fields.len(),
{
    if fields.len() > 0 {
        law_opts_keeps_every_field(fields.drop_last());
        assert(fields.drop_last().push(fields.last()) =~= fields);
    }
}

/// The configuration struct leaves out every skipped field and keeps every other one.
pub proof fn law_config_leaves_out_skipped(fields: Seq<NamedField>)
    ensures
        forall|i: int|
            0 <= i < kept_fields(fields, GenerationTarget::Config).len() ==> !(#[trigger] kept_fields(
                fields,
                GenerationTarget::Config,
            )[i])@.skip,
        forall|i: int|
            0 <= i < fields.len() && !fields[i]@.skip ==> kept_fields(fields, GenerationTarget::Config).contains(
                #[trigger] fields[i],
            ),
    decreases fields.len(),
{
    if fields.len() > 0 {
        law_config_leaves_out_skipped(fields.drop_last());
        let rest = kept_fields(fields.drop_last(), GenerationTarget::Config);
        assert forall|i: int| 0 <= i < fields.len() && !fields[i]@.skip implies kept_fields(
            fields,
            GenerationTarget::Config,
        ).contains(#[trigger] fields[i]) by {
            if i < fields.len() - 1 {
                assert(fields.drop_last()[i] == fields[i]);
                let k = choose|k: int| 0 <= k < rest.len() && rest[k] == fields[i];
                if !fields.last()@.skip {
                    assert(rest.push(fields.last())[k] == fields[i]);
                }
            } else {
                assert(rest.push(fields.last())[rest.len() as int] == fields[i]);
            }
        }
    }
}

/// `#[config(skip_all)]` leaves the configuration struct without fields.
pub proof fn law_skip_all_empties_config(before: Seq<NamedField>, after: Seq<NamedField>)
    requires
        skips_propagated(before, after, true),
    ensures
        kept_fields(after, GenerationTarget::Config).len() == 0,
{
    law_config_leaves_out_skipped(after);
    if kept_fields(after, GenerationTarget::Config).len() > 0 {
        lemma_kept_is_from(after, 0);
        let j = choose|j: int| 0 <= j < after.len() && after[j] == kept_fields(after, GenerationTarget::Config)[0];
        assert(after[j]@.skip);
    }
}

/// Every field kept for the configuration is one of the fields.
proof fn lemma_kept_is_from(fields: Seq<NamedField>, k: int)
    requires
        0 <= k < kept_fields(fields, GenerationTarget::Config).len(),
    ensures
        exists|j: int| 0 <= j < fields.len() && fields[j] == kept_fields(fields, GenerationTarget::Config)[k],
    decreases fields.len(),
{
    let rest = kept_fields(fields.drop_last(), GenerationTarget::Config);
    if k < rest.len() {
        lemma_kept_is_from(fields.drop_last(), k);
        let j = choose|j: int| 0 <= j < fields.drop_last().len() && fields.drop_last()[j] == rest[k];
        assert(fields[j] == fields.drop_last()[j]);
    } else {
        assert(fields[fields.len() - 1] == fields.last());
    }
}

/// Sanitizing keeps exactly the allowed arguments of `#[arg(..)]`: every kept position holds
/// a named argument whose name no denied prefix starts, and every such argument is kept.
pub proof fn law_sanitize_keeps_allowed(args: Seq<ExprModel>, denied: Seq<Seq<char>>)
    requires
        args.len() <= usize::MAX,
    ensures
        forall|k: int|
            0 <= k < kept_positions(args, denied).len() ==> {
                let p = #[trigger] kept_positions(args, denied)[k] as int;
                &&& 0 <= p < args.len()
                &&& expr_ident(args[p]) matches Some(id) && !is_denied(id, denied)
            },
        forall|p: int|
            0 <= p < args.len() && #[trigger] keeps_arg(args[p], denied) ==> kept_positions(args, denied).contains(
                p as usize,
            ),
    decreases args.len(),
{
    if args.len() > 0 {
        let front = args.drop_last();
        law_sanitize_keeps_allowed(front, denied);
        let rest = kept_positions(front, denied);
        assert forall|k: int|
            0 <= k < kept_positions(args, denied).len() implies {
                let p = #[trigger] kept_positions(args, denied)[k] as int;
                &&& 0 <= p < args.len()
                &&& expr_ident(args[p]) matches Some(id) && !is_denied(id, denied)
            } by {
            if k < rest.len() {
                let p = rest[k] as int;
                assert(front[p] == args[p]);
            } else {
                assert(kept_positions(args, denied)[k] == (args.len() - 1) as usize);
            }
        }
        assert forall|p: int|
            0 <= p < args.len() && #[trigger] keeps_arg(args[p], denied) implies kept_positions(args, denied).contains(
                p as usize,
            ) by {
            if p < args.len() - 1 {
                assert(front[p] == args[p]);
                assert(keeps_arg(front[p], denied));
                let k = choose|k: int| 0 <= k < rest.len() && rest[k] == p as usize;
                if keeps_arg(args.last(), denied) {
                    assert(rest.push((args.len() - 1) as usize)[k] == p as usize);
                }
            } else {
                assert(rest.push((args.len() - 1) as usize)[rest.len() as int] == p as usize);
            }
        }
    }
}

/// The first variant whose command-line name is `name` is the one found under it.
proof fn lemma_first_cli_name(vs: Seq<VariantSpec>, name: Seq<char>, i: int)
    requires
        0 <= i < vs.len(),
        vs[i].cli_name@ == name,
        forall|j: int| 0 <= j < i ==> vs[j].cli_name@ != name,
    ensures
        variant_by_cli_name(vs, name) == Some(vs[i]),
    decreases i,
{
    if i > 0 {
        assert forall|j: int| 0 <= j < i - 1 implies vs.drop_first()[j].cli_name@ != name by {
            assert(vs.drop_first()[j] == vs[j + 1]);
        }
        lemma_first_cli_name(vs.drop_first(), name, i - 1);
    }
}

/// No variant is found under a command-line name none of them has.
proof fn lemma_no_cli_name(vs: Seq<VariantSpec>, name: Seq<char>)
    requires
        forall|j: int| 0 <= j < vs.len() ==> vs[j].cli_name@ != name,
    ensures
        variant_by_cli_name(vs, name) is None,
    decreases vs.len(),
{
    if vs.len() > 0 {
        assert forall|j: int| 0 <= j < vs.len() - 1 implies vs.drop_first()[j].cli_name@ != name by {
            assert(vs.drop_first()[j] == vs[j + 1]);
        }
        lemma_no_cli_name(vs.drop_first(), name);
    }
}

/// The subcommand clap matched is kept: the first variant whose command-line (kebab-case) name
/// is the matched name is chosen, under its identifier and command-line name, with the body
/// clap gave it when it has fields.
pub proof fn law_matched_subcommand_is_kept(
    vs: Seq<VariantSpec>,
    name: Seq<char>,
    body: Option<OptsRecord>,
    r: Option<CommandOpts>,
    i: int,
)
    requires
        is_selected_command(vs, name, body, r),
        0 <= i < vs.len(),
        vs[i].cli_name@ == name,
        forall|j: int| 0 <= j < i ==> vs[j].cli_name@ != name,
    ensures
        r matches Some(c) && c.variant == vs[i].ident && c.cli_name == vs[i].cli_name,
        vs[i].shape != BodyShape::Unit && body is Some ==> (r matches Some(c) && Some(c.body) == body),
        vs[i].shape == BodyShape::Unit ==> (r matches Some(c) && c.body.fields@.len() == 0),
{
    lemma_first_cli_name(vs, name, i);
}

/// A name no variant has on the command line selects no subcommand.
pub proof fn law_unmatched_subcommand_selects_none(
    vs: Seq<VariantSpec>,
    name: Seq<char>,
    body: Option<OptsRecord>,
    r: Option<CommandOpts>,
)
    requires
        is_selected_command(vs, name, body, r),
        forall|j: int| 0 <= j < vs.len() ==> vs[j].cli_name@ != name,
    ensures
        r is None,
{
    lemma_no_cli_name(vs, name);
}

/// The first variant whose configuration name is `name` is the one found under it.
proof fn lemma_first_config_name(vs: Seq<VariantSpec>, name: Seq<char>, i: int)
    requires
        0 <= i < vs.len(),
        vs[i].config_name@ == name,
        forall|j: int| 0 <= j < i ==> vs[j].config_name@ != name,
    ensures
        variant_by_config_name(vs, name) == Some(vs[i]),
    decreases i,
{
    if i > 0 {
        assert forall|j: int| 0 <= j < i - 1 implies vs.drop_first()[j].config_name@ != name by {
            assert(vs.drop_first()[j] == vs[j + 1]);
        }
        lemma_first_config_name(vs.drop_first(), name, i - 1);
    }
}

/// No variant is found under a configuration name none of them has.
proof fn lemma_no_config_name(vs: Seq<VariantSpec>, name: Seq<char>)
    requires
        forall|j: int| 0 <= j < vs.len() ==> vs[j].config_name@ != name,
    ensures
        variant_by_config_name(vs, name) is None,
    decreases vs.len(),
{
    if vs.len() > 0 {
        assert forall|j: int| 0 <= j < vs.len() - 1 implies vs.drop_first()[j].config_name@ != name by {
            assert(vs.drop_first()[j] == vs[j + 1]);
        }
        lemma_no_config_name(vs.drop_first(), name);
    }
}

/// Without a command on the command line, the fallback command runs the first variant whose
/// configuration (snake-case) name it is, under that variant's identifier and command-line
/// name.
pub proof fn law_fallback_runs_config_named_variant(cfg: CommandConfig, r: Result<Option<CommandOpts>, String>, i: int)
    requires
        cfg.merges_to(None, r),
        cfg.fallback_command matches Some(n) && 0 <= i < cfg.variants@.len()
            && cfg.variants@[i].config_name@ == n@ && forall|j: int|
            0 <= j < i ==> cfg.variants@[j].config_name@ != n@,
    ensures
        r matches Ok(Some(m)) && m.variant@ == cfg.variants@[i].ident@ && m.cli_name@
            == cfg.variants@[i].cli_name@,
{
    lemma_first_config_name(cfg.variants@, cfg.fallback_command->0@, i);
}

/// Without a command on the command line, a fallback command that is no variant's
/// configuration name is an error naming it.
pub proof fn law_unknown_fallback_is_error(cfg: CommandConfig, r: Result<Option<CommandOpts>, String>)
    requires
        cfg.merges_to(None, r),
        cfg.fallback_command matches Some(n) && forall|j: int|
            0 <= j < cfg.variants@.len() ==> cfg.variants@[j].config_name@ != n@,
    ensures
        r matches Err(e) && e@ == "unknown fallback command: "@ + cfg.fallback_command->0@,
{
    lemma_no_config_name(cfg.variants@, cfg.fallback_command->0@);
}

/// Whether a key may stand in a table of entries: a variant's entry or the fallback key.
spec fn entry_or_fallback(layout: SectionLayout, key: Seq<char>) -> bool {
    layout.entries.deep_view().contains(key) || key == layout.fallback_key@
}

/// No key is unknown exactly when every key is an entry or the fallback key.
proof fn lemma_no_unknown_key(layout: SectionLayout, keys: Seq<Seq<char>>)
    ensures
        first_unknown_key(layout, keys) is None <==> forall|k: int|
            0 <= k < keys.len() ==> #[trigger] entry_or_fallback(layout, keys[k]),
    decreases keys.len(),
{
    if keys.len() > 0 {
        lemma_no_unknown_key(layout, keys.drop_first());
        if first_unknown_key(layout, keys) is None {
            assert forall|k: int| 0 <= k < keys.len() implies #[trigger] entry_or_fallback(layout, keys[k]) by {
                if k > 0 {
                    assert(keys[k] == keys.drop_first()[k - 1]);
                    assert(entry_or_fallback(layout, keys.drop_first()[k - 1]));
                }
            }
        } else {
            if forall|k: int| 0 <= k < keys.len() ==> #[trigger] entry_or_fallback(layout, keys[k]) {
                assert(entry_or_fallback(layout, keys[0]));
                assert forall|k: int| 0 <= k < keys.drop_first().len() implies #[trigger] entry_or_fallback(
                    layout,
                    keys.drop_first()[k],
                ) by {
                    assert(keys.drop_first()[k] == keys[k + 1]);
                    assert(entry_or_fallback(layout, keys[k + 1]));
                }
            }
        }
    }
}

/// A table of entries is read only when every one of its keys is a variant's entry or the
/// fallback key; a table holding any other key is refused.
pub proof fn law_entries_need_known_keys(
    layout: SectionLayout,
    keys: Vec<String>,
    tag_value: Option<String>,
    r: Result<SectionReading, String>,
)
    requires
        layout.tag is None,
        is_section_reading(layout, SectionShape::Table { keys, tag_value }, r),
    ensures
        (r matches Ok(SectionReading::Entries)) <==> forall|k: int|
            0 <= k < keys@.len() ==> layout.entries.deep_view().contains(#[trigger] keys@[k]@)
                || keys@[k]@ == layout.fallback_key@,
        (exists|k: int|
            0 <= k < keys@.len() && !layout.entries.deep_view().contains(#[trigger] keys@[k]@)
                && keys@[k]@ != layout.fallback_key@) ==> r is Err,
{
    lemma_no_unknown_key(layout, keys.deep_view());
    assert forall|k: int| 0 <= k < keys@.len() implies #[trigger] keys@[k]@ == keys.deep_view()[k] by {}
    if forall|k: int| 0 <= k < keys@.len() ==> layout.entries.deep_view().contains(#[trigger] keys@[k]@)
        || keys@[k]@ == layout.fallback_key@ {
        assert forall|k: int| 0 <= k < keys.deep_view().len() implies #[trigger] entry_or_fallback(
            layout,
            keys.deep_view()[k],
        ) by {
            assert(keys.deep_view()[k] == keys@[k]@);
        }
    } else {
        let k = choose|k: int|
            0 <= k < keys@.len() && !(layout.entries.deep_view().contains(#[trigger] keys@[k]@)
                || keys@[k]@ == layout.fallback_key@);
        assert(!entry_or_fallback(layout, keys.deep_view()[k]));
    }
}

/// Whether a field takes part in configuration fallback.
pub open spec fn not_skipped() -> spec_fn(Field) -> bool {
    |f: Field| !f.skip
}

/// The plain fields kept for the configuration are the fields not skipped, in order.
proof fn lemma_kept_plain_is_filter(fs: Seq<Field>)
    ensures
        kept_plain_fields(fs, GenerationTarget::Config) == fs.filter(not_skipped()),
    decreases fs.len(),
{
    reveal(Seq::filter);
    if fs.len() > 0 {
        lemma_kept_plain_is_filter(fs.drop_last());
    }
}

/// The configuration section of a struct variant defines, in order, exactly the variant's
/// fields that are not `#[config(skip)]`.
pub proof fn law_variant_section_leaves_out_skipped(base: Seq<char>, v: Variant, e: ConfigEntryPlan)
    requires
        is_config_entry(base, v, e),
        v.fields.style == Style::Struct,
    ensures
        e.kind matches ConfigEntryKind::Inline { fields: defs, .. } && defs@.len() == v.fields.fields@.filter(
            not_skipped(),
        ).len() && forall|i: int|
            0 <= i < defs@.len() ==> !v.fields.fields@.filter(not_skipped())[i].skip
                && v.fields.fields@.filter(not_skipped())[i].ident == Some(*(#[trigger] defs@[i]).ident),
{
    lemma_kept_plain_is_filter(v.fields.fields@);
    broadcast use vstd::seq_lib::group_filter_ensures;

    match e.kind {
        ConfigEntryKind::Inline { fields: defs, .. } => {
            assert forall|i: int| 0 <= i < defs@.len() implies !v.fields.fields@.filter(not_skipped())[i].skip
                && v.fields.fields@.filter(not_skipped())[i].ident == Some(*(#[trigger] defs@[i]).ident) by {
                assert(not_skipped()(v.fields.fields@.filter(not_skipped())[i]));
            }
        },
        _ => {},
    }
}

/// A structured field's section is flattened into its parent's exactly when the field is
/// `#[command(flatten)]` without `#[config(no_flatten)]`: a `no_flatten` field always keeps a
/// section of its own.
pub proof fn law_no_flatten_keeps_section(
    struct_ident: Seq<char>,
    field: Field,
    prefix: Option<Seq<char>>,
    target: GenerationTarget,
    d: FieldDefinition,
)
    requires
        is_field_definition(struct_ident, field, prefix, target, d),
        field.commands@.len() > 0,
    ensures
        d.flatten == (field.commands@.contains(ClapCommand::Flatten) && !field.no_flatten),
        field.no_flatten ==> !d.flatten,
{
}

/// The first variant with identifier `ident` is the one found under it.
proof fn lemma_first_ident(vs: Seq<VariantSpec>, ident: Seq<char>, i: int)
    requires
        0 <= i < vs.len(),
        vs[i].ident@ == ident,
        forall|j: int| 0 <= j < i ==> vs[j].ident@ != ident,
    ensures
        variant_by_ident(vs, ident) == Some(vs[i]),
    decreases i,
{
    if i > 0 {
        assert forall|j: int| 0 <= j < i - 1 implies vs.drop_first()[j].ident@ != ident by {
            assert(vs.drop_first()[j] == vs[j + 1]);
        }
        lemma_first_ident(vs.drop_first(), ident, i - 1);
    }
}

/// Whether an entry is the section of values named `name`.
spec fn is_section_named(e: CommandEntry, name: Seq<char>) -> bool {
    e.name@ == name && e.value is Record
}

/// The first entry that is a section named `name` gives the fallback fields for that name.
proof fn lemma_first_entry(es: Seq<CommandEntry>, name: Seq<char>, j: int)
    requires
        0 <= j < es.len(),
        is_section_named(es[j], name),
        forall|k: int| 0 <= k < j ==> !is_section_named(#[trigger] es[k], name),
    ensures
        entry_fields(es, name) == es[j].value->Record_0.fields@,
    decreases j,
{
    if j > 0 {
        assert(!is_section_named(es[0], name));
        assert forall|k: int| 0 <= k < j - 1 implies !is_section_named(#[trigger] es.drop_first()[k], name) by {
            assert(es.drop_first()[k] == es[k + 1]);
            assert(!is_section_named(es[k + 1], name));
        }
        lemma_first_entry(es.drop_first(), name, j - 1);
    }
}

/// A command chosen on the command line takes its fallback values from the section named after
/// its variant's configuration (snake-case) name: the variant is found by the command's
/// identifier, and the first section under that variant's configuration name completes the
/// command's body.
pub proof fn law_cli_command_takes_its_section(
    cfg: CommandConfig,
    c: CommandOpts,
    r: Result<Option<CommandOpts>, String>,
    i: int,
    j: int,
)
    requires
        cfg.merges_to(Some(c), r),
        0 <= i < cfg.variants@.len(),
        cfg.variants@[i].ident@ == c.variant@,
        forall|k: int| 0 <= k < i ==> cfg.variants@[k].ident@ != c.variant@,
        cfg.variants@[i].shape != BodyShape::Unit,
        0 <= j < cfg.entries@.len(),
        cfg.entries@[j].name@ == cfg.variants@[i].config_name@,
        cfg.entries@[j].value is Record,
        forall|k: int|
            0 <= k < j ==> !((#[trigger] cfg.entries@[k]).name@ == cfg.variants@[i].config_name@
                && cfg.entries@[k].value is Record),
    ensures
        r matches Ok(Some(m)) && m.variant == c.variant && is_fallback_merge(
            c.body.fields@,
            cfg.entries@[j].value->Record_0.fields@,
            m.body.fields@,
        ),
{
    lemma_first_ident(cfg.variants@, c.variant@, i);
    assert forall|k: int| 0 <= k < j implies !is_section_named(#[trigger] cfg.entries@[k], cfg.variants@[i].config_name@) by {}
    lemma_first_entry(cfg.entries@, cfg.variants@[i].config_name@, j);
}

} // verus!
