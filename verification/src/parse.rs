//! The decisions of a parse with configuration fallback: when clap alone answers, whether and
//! how the configuration file is read, how the values are merged, and the arguments of the
//! final parse.

use vstd::prelude::*;
use crate::arg::{IntoArgs, push_text};
use crate::command::MergeCommand;
use crate::opts::{CommandOpts, FieldValue, OptsField, OptsRecord, is_fallback_merge, fields_texts, merge_records};
use crate::source::ConfigFormat;
use crate::text::str_eq;

verus! {

/// The kinds of clap error a parse with configuration fallback reports.
#[derive(Debug, Clone, Copy, PartialEq, Eq, Structural)]
pub enum ErrorKind {
    /// The configuration file cannot be read.
    Io,
    /// The configuration file, or what it holds, is not valid.
    InvalidValue,
}

/// An error reported as a clap error of the given kind.
#[derive(Debug)]
pub struct FallbackError {
    pub kind: ErrorKind,
    pub message: String,
}

/// Whether an argument asks for help or for the version.
pub open spec fn is_help_or_version(arg: Seq<char>) -> bool {
    arg == "--help"@ || arg == "-h"@ || arg == "--version"@ || arg == "-V"@
}

/// Whether an argument asks for help or for the version.
pub fn help_or_version(arg: &str) -> (r: bool)
    ensures
        r == is_help_or_version(arg@),
{
    str_eq(arg, "--help") || str_eq(arg, "-h") || str_eq(arg, "--version") || str_eq(arg, "-V")
}

/// Whether clap alone answers the command line, so that help and version output work as
/// usual: one of the arguments asks for help or for the version.
pub fn answered_by_clap(args: &Vec<String>) -> (r: bool)
    ensures
        r == exists|i: int| 0 <= i < args@.len() && is_help_or_version(#[trigger] args@[i]@),
{
    let mut i: usize = 0;
    while i < args.len()
        invariant
            i <= args.len(),
            forall|j: int| 0 <= j < i ==> !is_help_or_version(#[trigger] args@[j]@),
        decreases args.len() - i,
    {
        if help_or_version(args[i].as_str()) {
            return true;
        }
        i = i + 1;
    }
    false
}

/// The message for a configuration path that names no file.
pub open spec fn not_found_message() -> Seq<char> {
    "configuration file not found"@
}

/// The message for a configuration file of no supported format.
pub open spec fn unsupported_message() -> Seq<char> {
    "unsupported configuration file"@
}

/// The message for a configuration file that cannot be read as the configuration.
pub open spec fn invalid_message(detail: Seq<char>) -> Seq<char> {
    "invalid configuration file: "@ + detail
}

/// How the configuration is loaded: not at all without a path; an I/O error when the path names
/// no file; an invalid-value error when no format applies; otherwise in the given format.
pub fn plan_config_load(path: Option<&str>, exists: bool, format: Option<ConfigFormat>) -> (r: Result<
    Option<ConfigFormat>,
    FallbackError,
>)
    ensures
        path is None ==> r == Ok::<Option<ConfigFormat>, FallbackError>(None),
        path is Some && !exists ==> (r matches Err(e) && e.kind == ErrorKind::Io && e.message@
            == not_found_message()),
        path is Some && exists && format is None ==> (r matches Err(e) && e.kind
            == ErrorKind::InvalidValue && e.message@ == unsupported_message()),
        path is Some && exists && format is Some ==> r == Ok::<Option<ConfigFormat>, FallbackError>(
            format,
        ),
{
    match path {
        None => Ok(None),
        Some(_) => {
            if !exists {
                Err(
                    FallbackError {
                        kind: ErrorKind::Io,
                        message: String::from_str("configuration file not found"),
                    },
                )
            } else {
                match format {
                    Some(f) => Ok(Some(f)),
                    None => Err(
                        FallbackError {
                            kind: ErrorKind::InvalidValue,
                            message: String::from_str("unsupported configuration file"),
                        },
                    ),
                }
            }
        },
    }
}

/// The error for a configuration file that cannot be read as the configuration.
pub fn invalid_config(detail: &str) -> (r: FallbackError)
    ensures
        r.kind == ErrorKind::InvalidValue,
        r.message@ == invalid_message(detail@),
{
    FallbackError {
        kind: ErrorKind::InvalidValue,
        message: String::from_str("invalid configuration file: ").concat(detail),
    }
}

/// The position of the first field keyed `key`.
pub open spec fn key_position(s: Seq<OptsField>, key: Seq<char>) -> Option<int>
    decreases s.len(),
{
    if s.len() == 0 {
        None
    } else if s[0].key@ == key {
        Some(0)
    } else {
        match key_position(s.drop_first(), key) {
            Some(i) => Some(i + 1),
            None => None,
        }
    }
}

/// The field at `i` is the first keyed `key`.
pub(crate) proof fn lemma_key_position(s: Seq<OptsField>, key: Seq<char>, i: int)
    requires
        0 <= i < s.len(),
        s[i].key@ == key,
        forall|j: int| 0 <= j < i ==> s[j].key@ != key,
    ensures
        key_position(s, key) == Some(i),
    decreases i,
{
    if i > 0 {
        lemma_key_position(s.drop_first(), key, i - 1);
    }
}

/// The first field keyed `key` is one of the fields, and is keyed `key`.
pub(crate) proof fn lemma_key_position_bounds(s: Seq<OptsField>, key: Seq<char>)
    ensures
        key_position(s, key) matches Some(i) ==> 0 <= i < s.len() && s[i].key@ == key,
    decreases s.len(),
{
    if s.len() > 0 {
        lemma_key_position_bounds(s.drop_first(), key);
    }
}

/// No field is keyed `key`.
proof fn lemma_no_key_position(s: Seq<OptsField>, key: Seq<char>)
    requires
        forall|j: int| 0 <= j < s.len() ==> s[j].key@ != key,
    ensures
        key_position(s, key) is None,
    decreases s.len(),
{
    if s.len() > 0 {
        lemma_no_key_position(s.drop_first(), key);
    }
}

/// The value a command takes as a field's value.
pub open spec fn command_value(c: Option<CommandOpts>) -> Option<FieldValue> {
    match c {
        Some(c) => Some(FieldValue::Command(c)),
        None => None,
    }
}

/// The position of the first field keyed `key`.
fn key_index(fields: &Vec<OptsField>, key: &String) -> (r: Option<usize>)
    ensures
        match r {
            Some(i) => i < fields@.len() && key_position(fields@, key@) == Some(i as int),
            None => key_position(fields@, key@) is None,
        },
{
    let mut i: usize = 0;
    while i < fields.len()
        invariant
            i <= fields@.len(),
            forall|j: int| 0 <= j < i ==> fields@[j].key@ != key@,
        decreases fields.len() - i,
    {
        if fields[i].key == *key {
            proof {
                lemma_key_position(fields@, key@, i as int);
            }
            return Some(i);
        }
        i = i + 1;
    }
    proof {
        lemma_no_key_position(fields@, key@);
    }
    None
}

impl OptsRecord {
    /// Takes the command held by the first field keyed `key` (the subcommand field), leaving it
    /// absent; when that field holds no command, or no field has the key, nothing changes.
    pub fn take_command(&mut self, key: &String) -> (r: Option<CommandOpts>)
        ensures
            took_command(old(self).fields@, Some(key@), final(self).fields@, r),
    {
        match key_index(&self.fields, key) {
            None => None,
            Some(i) => {
                let holds = match &self.fields[i].value {
                    Some(FieldValue::Command(_)) => true,
                    _ => false,
                };
                if !holds {
                    return None;
                }
                let ghost before = self.fields@;
                let mut f = self.fields.remove(i);
                let v = f.value;
                f.value = None;
                self.fields.insert(i, f);
                proof {
                    assert(self.fields@ =~= before.update(
                        i as int,
                        OptsField { value: None, ..before[i as int] },
                    ));
                }
                match v {
                    Some(FieldValue::Command(c)) => Some(c),
                    _ => {
                        proof {
                            assert(false);
                        }
                        None
                    },
                }
            },
        }
    }

    /// Sets the first field keyed `key` to the given command, or leaves it absent without one;
    /// the other fields are unchanged.
    pub fn put_command(&mut self, key: &String, command: Option<CommandOpts>)
        ensures
            match key_position(old(self).fields@, key@) {
                Some(i) => final(self).fields@ == old(self).fields@.update(
                    i,
                    OptsField { value: command_value(command), ..old(self).fields@[i] },
                ),
                None => final(self).fields@ == old(self).fields@,
            },
    {
        let mut i: usize = 0;
        while i < self.fields.len()
            invariant
                i <= self.fields@.len(),
                self.fields@ == old(self).fields@,
                forall|j: int| 0 <= j < i ==> self.fields@[j].key@ != key@,
            decreases self.fields.len() - i,
        {
            if self.fields[i].key == *key {
                let ghost before = self.fields@;
                proof {
                    lemma_key_position(before, key@, i as int);
                }
                let mut f = self.fields.remove(i);
                f.value = match command {
                    Some(c) => Some(FieldValue::Command(c)),
                    None => None,
                };
                self.fields.insert(i, f);
                proof {
                    assert(self.fields@ =~= before.update(
                        i as int,
                        OptsField { value: command_value(command), ..before[i as int] },
                    ));
                }
                return;
            }
            i = i + 1;
        }
        proof {
            lemma_no_key_position(self.fields@, key@);
        }
    }
}

/// The arguments of the final parse: the command's name, then the merged options, every
/// argument value before the chosen subcommands, so that clap reads a parent's options before
/// its subcommand.
pub fn final_args(command_name: String, merged: OptsRecord) -> (r: Vec<String>)
    ensures
        r.deep_view() == seq![command_name@] + fields_texts(merged.fields@),
{
    let mut args: Vec<String> = Vec::new();
    push_text(&mut args, command_name);
    merged.extend_args(&mut args);
    proof {
        assert(args.deep_view() =~= seq![command_name@] + fields_texts(merged.fields@));
    }
    args
}


/// Whether `after` and `c` are what taking the command keyed `key` out of `before` leaves and
/// gives: the command the first field with that key holds, which is left absent; nothing when
/// that field holds none, no field has the key, or there is no key.
pub open spec fn took_command(
    before: Seq<OptsField>,
    key: Option<Seq<char>>,
    after: Seq<OptsField>,
    c: Option<CommandOpts>,
) -> bool {
    match key {
        None => after == before && c is None,
        Some(k) => match key_position(before, k) {
            Some(i) => match before[i].value {
                Some(FieldValue::Command(cc)) => c == Some(cc) && after == before.update(
                    i,
                    OptsField { value: None, ..before[i] },
                ),
                _ => c is None && after == before,
            },
            None => c is None && after == before,
        },
    }
}

/// Whether `merged` is `cli` completed from the configuration, or `cli` itself without one.
pub open spec fn with_config(cli: Seq<OptsField>, config: Option<OptsRecord>, merged: Seq<OptsField>) -> bool {
    match config {
        Some(c) => is_fallback_merge(cli, c.fields@, merged),
        None => merged == cli,
    }
}

/// Whether `out` is `merged` with the resolved command put back under `key`.
pub open spec fn put_back(
    merged: Seq<OptsField>,
    key: Option<Seq<char>>,
    resolved: Option<CommandOpts>,
    out: Seq<OptsField>,
) -> bool {
    match key {
        None => out == merged,
        Some(k) => match key_position(merged, k) {
            Some(i) => out == merged.update(i, OptsField { value: command_value(resolved), ..merged[i] }),
            None => out == merged,
        },
    }
}

/// The key of the subcommand field, as text.
pub open spec fn key_view(key: Option<&String>) -> Option<Seq<char>> {
    match key {
        Some(k) => Some(k@),
        None => None,
    }
}

/// Whether `r` is the outcome of a parse's merge: the command keyed `key` is taken out of
/// `opts`, the other options are completed from the configuration, the command configuration
/// resolves the command, and the result is put back; or the resolution's error, reported as an
/// invalid value.
pub open spec fn resolves<C: MergeCommand<CommandOpts = CommandOpts>>(
    opts: OptsRecord,
    key: Option<Seq<char>>,
    config: Option<OptsRecord>,
    config_command: C,
    r: Result<OptsRecord, FallbackError>,
) -> bool {
    match r {
        Ok(m) => exists|taken: Seq<OptsField>, cli: Option<CommandOpts>, merged: Seq<OptsField>, resolved: Option<CommandOpts>|
            #![trigger took_command(opts.fields@, key, taken, cli), with_config(taken, config, merged), put_back(merged, key, resolved, m.fields@)]
            took_command(opts.fields@, key, taken, cli)
                && with_config(taken, config, merged)
                && config_command.merges_to(cli, Ok(resolved))
                && put_back(merged, key, resolved, m.fields@),
        Err(e) => e.kind == ErrorKind::InvalidValue && exists|taken: Seq<OptsField>, cli: Option<CommandOpts>|
            #![trigger took_command(opts.fields@, key, taken, cli)]
            took_command(opts.fields@, key, taken, cli)
                && config_command.merges_to(cli, Err(e.message)),
    }
}

/// Merges the configuration into the options the command line gave, and resolves the
/// subcommand apart from that merge: the command line's command is taken out, the other
/// options are completed from the configuration (the command line's values win), the command
/// configuration resolves the command, and the result is put back. An error of the command
/// resolution is reported as an invalid value.
pub fn resolve_fallback<C: MergeCommand<CommandOpts = CommandOpts>>(
    opts: OptsRecord,
    command_key: Option<&String>,
    config: Option<OptsRecord>,
    config_command: C,
) -> (r: Result<OptsRecord, FallbackError>)
    ensures
        resolves(opts, key_view(command_key), config, config_command, r),
{
    let mut rec = opts;
    let ghost before = rec.fields@;
    let cli_command = match command_key {
        Some(k) => rec.take_command(k),
        None => None,
    };
    let ghost taken = rec.fields@;
    proof {
        assert(took_command(before, key_view(command_key), taken, cli_command));
    }
    let mut merged = match config {
        Some(c) => merge_records(rec, &c),
        None => rec,
    };
    let ghost merged_fields = merged.fields@;
    proof {
        assert(with_config(taken, config, merged_fields));
    }
    match config_command.merge_command(cli_command) {
        Ok(resolved) => {
            let ghost res = resolved;
            match command_key {
                Some(k) => merged.put_command(k, resolved),
                None => {},
            }
            proof {
                assert(put_back(merged_fields, key_view(command_key), res, merged.fields@));
                assert(config_command.merges_to(cli_command, Ok(res)));
            }
            let r: Result<OptsRecord, FallbackError> = Ok(merged);
            assert(r->Ok_0 == merged);
            r
        },
        Err(message) => {
            proof {
                assert(config_command.merges_to(cli_command, Err(message)));
            }
            Err(FallbackError { kind: ErrorKind::InvalidValue, message })
        },
    }
}

} // verus!
