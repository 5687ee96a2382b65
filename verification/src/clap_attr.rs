//! The clap attributes of a field: which flag introduces it on the command line, its aliases,
//! its value parser, and the sanitizing of `#[arg(..)]` for the optional intermediate struct.

use vstd::prelude::*;
use crate::text::{
    char_lowercase, is_prefix, kebab_case, lowercase_char, push_char, starts_with, to_kebab_case,
};
use crate::types::{expr_ident, ExprModel, PathModel, path_ident};

verus! {

/// The structured `#[command(..)]` attributes clap knows.
#[derive(Debug, Clone, Copy, PartialEq, Eq, Structural)]
pub enum ClapCommand {
    Flatten,
    Subcommand,
}

/// An attribute argument given either bare (inheriting a value from the field) or explicitly.
#[derive(Debug)]
pub enum Override<T> {
    Inherit,
    Explicit(T),
}

/// The `#[arg(..)]` settings the derive reads; every other setting is passed through.
#[derive(Debug)]
pub struct ClapArg {
    /// The short flag (`short` or `short = 'x'`).
    pub short: Option<Override<char>>,
    /// The long flag (`long` or `long = "name"`).
    pub long: Option<Override<String>>,
    /// One alias of the argument.
    pub alias: Option<String>,
    /// Several aliases of the argument.
    pub aliases: Option<Vec<String>>,
    /// The value parser: a path, or the message of why the expression is not one.
    pub value_parser: Option<Result<PathModel, String>>,
    /// The default value.
    pub default_value: Option<String>,
}

/// An attribute of a field: its path (such as `arg`) and, for a list attribute whose content
/// reads as comma-separated expressions, those expressions.
#[derive(Debug)]
pub struct AttributeModel {
    pub path: PathModel,
    pub args: Option<Vec<ExprModel>>,
}

/// The flag introducing an argument: the short flag when there is one, else the long flag.
/// A bare `short` takes the lowercased first character of the field's name, a bare `long` the
/// field's name in kebab case.
pub open spec fn flag_name_of(a: ClapArg, field_ident: Seq<char>) -> Option<Seq<char>> {
    match a.short {
        Some(Override::Explicit(c)) => Some(seq!['-', c]),
        Some(Override::Inherit) => if field_ident.len() > 0 {
            Some(seq!['-'] + char_lowercase(field_ident[0]))
        } else {
            None
        },
        None => match a.long {
            Some(Override::Explicit(s)) => Some(seq!['-', '-'] + s@),
            Some(Override::Inherit) => Some(seq!['-', '-'] + kebab_case(field_ident)),
            None => None,
        },
    }
}

/// The aliases of an argument: those of `aliases` in order, then `alias`.
pub open spec fn aliases_of(a: ClapArg) -> Seq<Seq<char>> {
    (match a.aliases {
        Some(v) => v.deep_view(),
        None => Seq::empty(),
    }) + (match a.alias {
        Some(s) => seq![s@],
        None => Seq::empty(),
    })
}

/// Whether a setting named `ident` is denied: it starts with one of the denied prefixes.
pub open spec fn is_denied(ident: Seq<char>, denied: Seq<Seq<char>>) -> bool {
    exists|k: int| 0 <= k < denied.len() && is_prefix(denied[k], ident)
}

/// Whether an argument of `#[arg(..)]` is kept: it is named, and its name is not denied.
pub open spec fn keeps_arg(e: ExprModel, denied: Seq<Seq<char>>) -> bool {
    match expr_ident(e) {
        Some(id) => !is_denied(id, denied),
        None => false,
    }
}

/// The positions of the kept arguments, in order.
pub open spec fn kept_positions(args: Seq<ExprModel>, denied: Seq<Seq<char>>) -> Seq<usize>
    decreases args.len(),
{
    if args.len() == 0 {
        Seq::empty()
    } else if keeps_arg(args.last(), denied) {
        kept_positions(args.drop_last(), denied).push((args.len() - 1) as usize)
    } else {
        kept_positions(args.drop_last(), denied)
    }
}

/// An attribute after sanitizing: kept as it is, or rewritten as `#[arg(..)]` holding only the
/// arguments at the given positions of the list as written.
#[derive(Debug)]
pub enum Sanitized {
    Unchanged,
    Arg(Vec<usize>),
}

/// Whether `s` is what sanitizing makes of `attr`.
pub open spec fn is_sanitized(attr: AttributeModel, denied: Seq<Seq<char>>, s: Sanitized) -> bool {
    match attr.args {
        Some(args) => if path_ident(attr.path) == Some("arg"@) {
            s matches Sanitized::Arg(kept) && kept@ == kept_positions(args@, denied)
        } else {
            s is Unchanged
        },
        None => s is Unchanged,
    }
}

/// Whether the name `ident` starts with one of the denied prefixes.
pub fn denied_by(ident: &str, denied: &[&str]) -> (r: bool)
    ensures
        r == is_denied(ident@, denied@.map_values(|d: &str| d@)),
{
    let mut k: usize = 0;
    while k < denied.len()
        invariant
            k <= denied@.len(),
            forall|j: int| 0 <= j < k ==> !is_prefix((#[trigger] denied@[j])@, ident@),
        decreases denied.len() - k,
    {
        if starts_with(ident, denied[k]) {
            proof {
                assert(denied@.map_values(|d: &str| d@)[k as int] == denied@[k as int]@);
            }
            return true;
        }
        k = k + 1;
    }
    false
}

impl Default for ClapArg {
    /// No settings at all.
    fn default() -> (r: Self)
        ensures
            r.short is None,
            r.long is None,
            r.alias is None,
            r.aliases is None,
            r.value_parser is None,
            r.default_value is None,
    {
        ClapArg {
            short: None,
            long: None,
            alias: None,
            aliases: None,
            value_parser: None,
            default_value: None,
        }
    }
}

impl ClapArg {
    /// The default value of the argument.
    pub fn default_value(&self) -> (r: Option<&String>)
        ensures
            r == match self.default_value {
                Some(s) => Some(&s),
                None => None::<&String>,
            },
    {
        match &self.default_value {
            Some(s) => Some(s),
            None => None,
        }
    }

    /// All aliases of the argument: those of `aliases`, then `alias`.
    pub fn aliases(&self) -> (r: Vec<String>)
        ensures
            r.deep_view() == aliases_of(*self),
    {
        let mut r: Vec<String> = Vec::new();
        match &self.aliases {
            Some(v) => {
                let mut i: usize = 0;
                while i < v.len()
                    invariant
                        i <= v.len(),
                        r.deep_view() == v.deep_view().take(i as int),
                    decreases v.len() - i,
                {
                    let ghost before = r.deep_view();
                    r.push(v[i].clone());
                    proof {
                        assert(r.deep_view() =~= before.push(v.deep_view()[i as int]));
                        assert(v.deep_view().take(i + 1) =~= v.deep_view().take(i as int).push(
                            v.deep_view()[i as int],
                        ));
                    }
                    i = i + 1;
                }
                proof {
                    assert(v.deep_view().take(v.len() as int) =~= v.deep_view());
                }
            },
            None => {
                proof {
                    assert(r.deep_view() =~= Seq::<Seq<char>>::empty());
                }
            },
        }
        let ghost before = r.deep_view();
        match &self.alias {
            Some(s) => {
                r.push(s.clone());
                proof {
                    assert(r.deep_view() =~= before + seq![s@]);
                }
            },
            None => {
                proof {
                    assert(r.deep_view() =~= before + Seq::<Seq<char>>::empty());
                }
            },
        }
        r
    }

    /// The value parser, when it is given as a path.
    pub fn value_parser(&self) -> (r: Option<&PathModel>)
        ensures
            match self.value_parser {
                Some(Ok(p)) => r == Some(&p),
                _ => r is None,
            },
    {
        match &self.value_parser {
            Some(Ok(p)) => Some(p),
            _ => None,
        }
    }

    /// The flag that introduces this argument for the field named `field_ident`; a short flag
    /// takes precedence over a long one.
    pub fn flag_name(&self, field_ident: &str) -> (r: Option<String>)
        ensures
            match r {
                Some(s) => flag_name_of(*self, field_ident@) == Some(s@),
                None => flag_name_of(*self, field_ident@) is None,
            },
    {
        match &self.short {
            Some(Override::Explicit(c)) => {
                let mut s = String::from_str("-");
                push_char(&mut s, *c);
                proof {
                    reveal_strlit("-");
                    assert(s@ =~= seq!['-', *c]);
                }
                return Some(s);
            },
            Some(Override::Inherit) => {
                if field_ident.unicode_len() == 0 {
                    return None;
                }
                let first = field_ident.get_char(0);
                let lower = lowercase_char(first);
                let s = String::from_str("-").concat(lower.as_str());
                proof {
                    reveal_strlit("-");
                    assert(s@ =~= seq!['-'] + char_lowercase(field_ident@[0]));
                }
                return Some(s);
            },
            None => {},
        }
        match &self.long {
            Some(Override::Explicit(name)) => {
                let s = String::from_str("--").concat(name.as_str());
                proof {
                    reveal_strlit("--");
                    assert(s@ =~= seq!['-', '-'] + name@);
                }
                Some(s)
            },
            Some(Override::Inherit) => {
                let kebab = to_kebab_case(field_ident);
                let s = String::from_str("--").concat(kebab.as_str());
                proof {
                    reveal_strlit("--");
                    assert(s@ =~= seq!['-', '-'] + kebab_case(field_ident@));
                }
                Some(s)
            },
            None => None,
        }
    }

    /// What sanitizing makes of `attr`: a parsed `#[arg(..)]` list keeps only the arguments
    /// that are named and whose name starts with none of `denied_args`; any other attribute is
    /// kept as it is.
    pub fn sanitize(attr: &AttributeModel, denied_args: &[&str]) -> (r: Sanitized)
        ensures
            is_sanitized(*attr, denied_args@.map_values(|d: &str| d@), r),
    {
        if !attr.path.is_ident("arg") {
            return Sanitized::Unchanged;
        }
        match &attr.args {
            Some(args) => {
                let mut kept: Vec<usize> = Vec::new();
                let mut i: usize = 0;
                while i < args.len()
                    invariant
                        i <= args.len(),
                        kept@ == kept_positions(args@.take(i as int), denied_args@.map_values(|d: &str| d@)),
                    decreases args.len() - i,
                {
                    let keep = match args[i].ident() {
                        Some(id) => !denied_by(id.as_str(), denied_args),
                        None => false,
                    };
                    proof {
                        assert(args@.take(i + 1).drop_last() =~= args@.take(i as int));
                        assert(args@.take(i + 1).last() == args@[i as int]);
                    }
                    if keep {
                        kept.push(i);
                    }
                    i = i + 1;
                }
                proof {
                    assert(args@.take(args.len() as int) =~= args@);
                }
                Sanitized::Arg(kept)
            },
            None => Sanitized::Unchanged,
        }
    }
}

} // verus!
