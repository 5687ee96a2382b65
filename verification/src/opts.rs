//! The options gathered for one command line: one field per clap argument, each possibly absent,
//! and the merge that lets configuration values fill in what the command line left out.

use vstd::prelude::*;
use crate::arg::{push_text, Arg, ArgValue, IntoArgs, arg_texts, name_prefix};

verus! {

/// The value of one options field: an argument value or a chosen subcommand.
#[derive(Debug)]
pub enum FieldValue {
    Arg(ArgValue),
    Command(CommandOpts),
}

/// One field of an options record, keyed by its configuration key (a dotted path for fields of
/// nested sections), with the flag that introduces it on the command line, if any.
#[derive(Debug)]
pub struct OptsField {
    pub key: String,
    pub flag: Option<String>,
    pub value: Option<FieldValue>,
}

/// The fields of one options struct, in declaration order.
#[derive(Debug)]
pub struct OptsRecord {
    pub fields: Vec<OptsField>,
}

/// A chosen subcommand: the variant's identifier, the name under which clap knows it, and the
/// options of its body.
#[derive(Debug)]
pub struct CommandOpts {
    pub variant: String,
    pub cli_name: String,
    pub body: OptsRecord,
}

/// The text of a boolean rendered as a value.
pub open spec fn bool_text(b: bool) -> Seq<char> {
    if b {
        "true"@
    } else {
        "false"@
    }
}

/// The texts of an argument value of a field: a boolean without a flag is rendered as a value,
/// every other value as the argument it forms with the field's flag.
pub open spec fn field_arg_texts(flag: Option<String>, value: ArgValue) -> Seq<Seq<char>> {
    match (value, flag) {
        (ArgValue::Flag(b), None) => seq![bool_text(b)],
        _ => arg_texts(value, flag),
    }
}

/// The texts of a field's own value: an argument value with its flag; nothing for an absent
/// value or a chosen subcommand.
pub open spec fn leaf_texts(f: OptsField) -> Seq<Seq<char>> {
    match f.value {
        Some(FieldValue::Arg(v)) => field_arg_texts(f.flag, v),
        _ => Seq::empty(),
    }
}

/// The texts of the argument values of a sequence of fields, in order.
pub open spec fn leaves_texts(s: Seq<OptsField>) -> Seq<Seq<char>>
    decreases s.len(),
{
    if s.len() == 0 {
        Seq::empty()
    } else {
        leaves_texts(s.drop_last()) + leaf_texts(s.last())
    }
}

/// The texts of a chosen subcommand: its name, then its body.
pub open spec fn command_texts(c: CommandOpts) -> Seq<Seq<char>>
    decreases c,
{
    seq![c.cli_name@] + leaves_texts(c.body.fields@) + commands_texts(c.body.fields@)
}

/// The texts of the subcommands chosen in a sequence of fields, in order.
pub open spec fn commands_texts(s: Seq<OptsField>) -> Seq<Seq<char>>
    decreases s,
{
    if s.len() == 0 {
        Seq::empty()
    } else {
        commands_texts(s.drop_last()) + match s.last().value {
            Some(FieldValue::Command(c)) => command_texts(c),
            _ => Seq::empty(),
        }
    }
}

/// The texts of a sequence of fields: every argument value, in order, and after all of them
/// the chosen subcommands, so that a parent's options always precede its subcommand.
pub open spec fn fields_texts(s: Seq<OptsField>) -> Seq<Seq<char>> {
    leaves_texts(s) + commands_texts(s)
}

/// Appends the texts of a field's own value.
fn extend_leaf_args(f: OptsField, args: &mut Vec<String>)
    ensures
        final(args).deep_view() == old(args).deep_view() + leaf_texts(f),
{
    let ghost start = args.deep_view();
    let ghost ff = f;
    match f.value {
        Some(FieldValue::Arg(v)) => {
            match (v, f.flag) {
                (ArgValue::Flag(b), None) => {
                    let text = if b {
                        String::from_str("true")
                    } else {
                        String::from_str("false")
                    };
                    push_text(args, text);
                    proof {
                        assert(args.deep_view() =~= start + leaf_texts(ff));
                    }
                },
                (v, flag) => {
                    let a = Arg { value: v, name: flag };
                    a.extend_args(args);
                },
            }
        },
        _ => {
            proof {
                assert(args.deep_view() =~= start + leaf_texts(ff));
            }
        },
    }
}

/// Appends the texts of a chosen subcommand.
fn extend_command_args(c: CommandOpts, args: &mut Vec<String>)
    ensures
        final(args).deep_view() == old(args).deep_view() + command_texts(c),
    decreases c,
{
    let ghost start = args.deep_view();
    let ghost cc = c;
    proof {
        assert(decreases_to!(cc => cc.body));
    }
    push_text(args, c.cli_name);
    extend_record_args(c.body, args);
    proof {
        assert(args.deep_view() =~= start + command_texts(cc));
    }
}

/// Appends the texts of every field of a record: the argument values in order, then the chosen
/// subcommands in order.
fn extend_record_args(r: OptsRecord, args: &mut Vec<String>)
    ensures
        final(args).deep_view() == old(args).deep_view() + fields_texts(r.fields@),
    decreases r,
{
    let ghost orig = r;
    let ghost start = args.deep_view();
    let mut fields = r.fields;
    let ghost all = fields@;
    let ghost mut k: int = 0;
    let mut tail: Vec<String> = Vec::new();
    proof {
        assert(tail.deep_view() =~= commands_texts(all.take(0)));
        assert(args.deep_view() =~= start + leaves_texts(all.take(0)));
    }
    while fields.len() > 0
        invariant
            all == orig.fields@,
            orig == r,
            0 <= k <= all.len(),
            fields@ == all.skip(k),
            args.deep_view() == start + leaves_texts(all.take(k)),
            tail.deep_view() == commands_texts(all.take(k)),
        decreases fields.len(),
    {
        let f = fields.remove(0);
        proof {
            assert(f == all[k]);
            assert(all.take(k + 1).drop_last() =~= all.take(k));
            assert(all.take(k + 1).last() == all[k]);
        }
        match f.value {
            Some(FieldValue::Command(c)) => {
                proof {
                    assert(decreases_to!(orig => orig.fields));
                    assert(decreases_to!(orig.fields => orig.fields@));
                    assert(decreases_to!(orig.fields@ => orig.fields@[k]));
                    assert(decreases_to!(orig => c));
                }
                let ghost t0 = tail.deep_view();
                extend_command_args(c, &mut tail);
                proof {
                    assert(leaf_texts(all[k]) =~= Seq::<Seq<char>>::empty());
                    assert(args.deep_view() =~= start + leaves_texts(all.take(k + 1)));
                    assert(tail.deep_view() =~= commands_texts(all.take(k + 1)));
                }
            },
            value => {
                let ghost a0 = args.deep_view();
                extend_leaf_args(OptsField { key: f.key, flag: f.flag, value }, args);
                proof {
                    assert(leaf_texts(OptsField { key: f.key, flag: f.flag, value }) == leaf_texts(all[k]));
                    assert(args.deep_view() =~= start + leaves_texts(all.take(k + 1)));
                    assert(tail.deep_view() =~= commands_texts(all.take(k + 1)));
                }
            },
        }
        proof {
            k = k + 1;
            assert(fields@ =~= all.skip(k));
        }
    }
    proof {
        assert(all.take(k) =~= all);
    }
    let ghost a1 = args.deep_view();
    let ghost t1 = tail.deep_view();
    args.append(&mut tail);
    proof {
        assert(args.deep_view() =~= a1 + t1);
        assert(args.deep_view() =~= start + fields_texts(all));
    }
}

impl IntoArgs for OptsRecord {
    open spec fn spec_args(&self) -> Seq<Seq<char>> {
        fields_texts(self.fields@)
    }

    fn extend_args(self, args: &mut Vec<String>) {
        extend_record_args(self, args);
    }
}

impl IntoArgs for CommandOpts {
    open spec fn spec_args(&self) -> Seq<Seq<char>> {
        command_texts(*self)
    }

    fn extend_args(self, args: &mut Vec<String>) {
        extend_command_args(self, args);
    }
}


/// The argument value the configuration holds for `key`: that of the first field with this key
/// that holds an argument value.
pub open spec fn config_value(cfg: Seq<OptsField>, key: Seq<char>) -> Option<ArgValue>
    decreases cfg.len(),
{
    if cfg.len() == 0 {
        None
    } else {
        match cfg[0].value {
            Some(FieldValue::Arg(v)) if cfg[0].key@ == key => Some(v),
            _ => config_value(cfg.drop_first(), key),
        }
    }
}

/// Whether `merged` is `cli` with every absent value filled in from `cfg`: keys, flags and the
/// values the command line gave are kept as they are, and an absent value becomes a copy of the
/// configuration's value for the key, or stays absent when the configuration has none.
pub open spec fn is_fallback_merge(
    cli: Seq<OptsField>,
    cfg: Seq<OptsField>,
    merged: Seq<OptsField>,
) -> bool {
    &&& merged.len() == cli.len()
    &&& forall|i: int| 0 <= i < cli.len() ==> #[trigger] fallback_field(cli[i], cfg, merged[i])
}

/// Whether `merged` is the field `cli` with its value filled in from `cfg` when it was absent.
pub open spec fn fallback_field(cli: OptsField, cfg: Seq<OptsField>, merged: OptsField) -> bool {
    &&& merged.key == cli.key
    &&& merged.flag == cli.flag
    &&& cli.value is Some ==> merged.value == cli.value
    &&& cli.value is None ==> match config_value(cfg, cli.key@) {
        Some(v) => merged.value matches Some(FieldValue::Arg(w)) && w.same_as(v),
        None => merged.value is None,
    }
}

/// Finds the configuration's value for `key`.
pub fn find_config_value(cfg: &OptsRecord, key: &String) -> (r: Option<ArgValue>)
    ensures
        match (r, config_value(cfg.fields@, key@)) {
            (Some(a), Some(b)) => a.same_as(b),
            (None, None) => true,
            _ => false,
        },
{
    let mut i: usize = 0;
    proof {
        assert(cfg.fields@.skip(0) =~= cfg.fields@);
    }
    while i < cfg.fields.len()
        invariant
            i <= cfg.fields@.len(),
            config_value(cfg.fields@, key@) == config_value(cfg.fields@.skip(i as int), key@),
        decreases cfg.fields.len() - i,
    {
        let f = &cfg.fields[i];
        proof {
            assert(cfg.fields@.skip(i as int)[0] == cfg.fields@[i as int]);
            assert(cfg.fields@.skip(i as int).drop_first() =~= cfg.fields@.skip(i + 1));
        }
        if f.key == *key {
            match &f.value {
                Some(FieldValue::Arg(v)) => {
                    return Some(v.duplicate());
                },
                _ => {},
            }
        }
        i = i + 1;
    }
    proof {
        assert(cfg.fields@.skip(i as int).len() == 0);
    }
    None
}

/// Fills in every value the command line left absent with the configuration's value for the
/// same key; the command line's own values always win.
pub fn merge_records(cli: OptsRecord, cfg: &OptsRecord) -> (r: OptsRecord)
    ensures
        is_fallback_merge(cli.fields@, cfg.fields@, r.fields@),
{
    let ghost all = cli.fields@;
    let mut fields = cli.fields;
    let mut out: Vec<OptsField> = Vec::new();
    while fields.len() > 0
        invariant
            out.len() <= all.len(),
            fields@ == all.skip(out.len() as int),
            forall|i: int| 0 <= i < out.len() ==> #[trigger] fallback_field(all[i], cfg.fields@, out@[i]),
        decreases fields.len(),
    {
        let f = fields.remove(0);
        proof {
            assert(f == all[out.len() as int]);
        }
        let value = match f.value {
            Some(v) => Some(v),
            None => match find_config_value(cfg, &f.key) {
                Some(a) => Some(FieldValue::Arg(a)),
                None => None,
            },
        };
        let ghost n = out.len();
        out.push(OptsField { key: f.key, flag: f.flag, value });
        proof {
            assert(fallback_field(all[n as int], cfg.fields@, out@[n as int]));
            assert(fields@ =~= all.skip(out.len() as int));
        }
    }
    OptsRecord { fields: out }
}

/// Whether every field of `s` is absent.
pub open spec fn all_absent(s: Seq<OptsField>) -> bool {
    forall|i: int| 0 <= i < s.len() ==> (#[trigger] s[i]).value is None
}

impl OptsRecord {
    /// The record of these fields, or `None` when none of them was given, so that a section the
    /// command line did not touch stays absent.
    pub fn from_fields(fields: Vec<OptsField>) -> (r: Option<OptsRecord>)
        ensures
            all_absent(fields@) ==> r is None,
            !all_absent(fields@) ==> r == Some(OptsRecord { fields }),
    {
        let mut i: usize = 0;
        while i < fields.len()
            invariant
                i <= fields.len(),
                forall|j: int| 0 <= j < i ==> (#[trigger] fields@[j]).value is None,
            decreases fields.len() - i,
        {
            if fields[i].value.is_some() {
                return Some(OptsRecord { fields });
            }
            i = i + 1;
        }
        None
    }
}

} // verus!
