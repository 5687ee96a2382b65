//! Command-line arguments rebuilt from merged values, fed back to clap for the final parse.

use vstd::prelude::*;

verus! {

/// The value carried by one argument: a single value, a repeated value or a boolean flag.
#[derive(Debug)]
pub enum ArgValue {
    Scalar(String),
    Repeated(Vec<String>),
    Flag(bool),
}

/// One argument to rebuild: its value and, for options, the flag that introduces it.
#[derive(Debug)]
pub struct Arg {
    pub value: ArgValue,
    pub name: Option<String>,
}

/// The flag text that precedes each value, when there is one.
pub open spec fn name_prefix(name: Option<String>) -> Seq<Seq<char>> {
    match name {
        Some(n) => seq![n@],
        None => Seq::empty(),
    }
}

/// Each value in order, each preceded by the flag when there is one.
pub open spec fn interleave(name: Option<String>, values: Seq<Seq<char>>) -> Seq<Seq<char>>
    decreases values.len(),
{
    if values.len() == 0 {
        Seq::empty()
    } else {
        interleave(name, values.drop_last()) + name_prefix(name) + seq![values.last()]
    }
}

/// The texts an argument expands to on the command line.
pub open spec fn arg_texts(value: ArgValue, name: Option<String>) -> Seq<Seq<char>> {
    match value {
        ArgValue::Scalar(v) => name_prefix(name) + seq![v@],
        ArgValue::Repeated(vs) => interleave(name, vs.deep_view()),
        ArgValue::Flag(b) => if b {
            name_prefix(name)
        } else {
            Seq::empty()
        },
    }
}

/// Values that can be turned into command-line arguments.
pub trait IntoArgs: Sized {
    /// The texts this value expands to.
    spec fn spec_args(&self) -> Seq<Seq<char>>;

    /// Appends the arguments of this value to `args`.
    fn extend_args(self, args: &mut Vec<String>)
        ensures
            final(args).deep_view() == old(args).deep_view() + self.spec_args(),
    ;

    /// The arguments of this value, in order.
    fn into_args(self) -> (r: Vec<String>)
        ensures
            r.deep_view() == self.spec_args(),
    {
        let mut args: Vec<String> = Vec::new();
        proof {
            assert(args.deep_view() =~= Seq::<Seq<char>>::empty());
        }
        let ghost s = self.spec_args();
        self.extend_args(&mut args);
        proof {
            assert(args.deep_view() =~= s);
        }
        args
    }
}

/// Appends `s` to `args`.
pub(crate) fn push_text(args: &mut Vec<String>, s: String)
    ensures
        final(args).deep_view() == old(args).deep_view().push(s@),
{
    let ghost before = args.deep_view();
    args.push(s);
    proof {
        assert(args.deep_view() =~= before.push(s@));
    }
}

/// A copy of a text list with the same texts.
pub(crate) fn copy_texts(v: &Vec<String>) -> (r: Vec<String>)
    ensures
        r.deep_view() == v.deep_view(),
{
    let mut r: Vec<String> = Vec::new();
    let mut i: usize = 0;
    while i < v.len()
        invariant
            i <= v.len(),
            r.deep_view() == v.deep_view().take(i as int),
        decreases v.len() - i,
    {
        let ghost before = r.deep_view();
        r.push(v[i].clone());
        proof {
            assert(r.deep_view() =~= before.push(v.deep_view()[i as int]));
            assert(v.deep_view().take(i + 1) =~= v.deep_view().take(i as int).push(
                v.deep_view()[i as int],
            ));
        }
        i = i + 1;
    }
    proof {
        assert(v.deep_view().take(v.len() as int) =~= v.deep_view());
    }
    r
}

impl ArgValue {
    /// A copy with the same texts.
    pub fn duplicate(&self) -> (r: ArgValue)
        ensures
            r.same_as(*self),
    {
        match self {
            ArgValue::Scalar(s) => ArgValue::Scalar(s.clone()),
            ArgValue::Repeated(vs) => ArgValue::Repeated(copy_texts(vs)),
            ArgValue::Flag(b) => ArgValue::Flag(*b),
        }
    }

    /// Whether two values carry the same texts.
    pub open spec fn same_as(self, other: ArgValue) -> bool {
        match (self, other) {
            (ArgValue::Scalar(a), ArgValue::Scalar(b)) => a@ == b@,
            (ArgValue::Repeated(a), ArgValue::Repeated(b)) => a.deep_view() == b.deep_view(),
            (ArgValue::Flag(a), ArgValue::Flag(b)) => a == b,
            _ => false,
        }
    }
}

impl Arg {
    /// An argument with a single value and no flag.
    pub fn scalar(value: String) -> (r: Arg)
        ensures
            r.value == ArgValue::Scalar(value),
            r.name is None,
    {
        Arg { value: ArgValue::Scalar(value), name: None }
    }

    /// An argument with repeated values and no flag.
    pub fn repeated(value: Vec<String>) -> (r: Arg)
        ensures
            r.value == ArgValue::Repeated(value),
            r.name is None,
    {
        Arg { value: ArgValue::Repeated(value), name: None }
    }

    /// A boolean flag; it appears on the command line only when it is set and named.
    pub fn flag(value: bool) -> (r: Arg)
        ensures
            r.value == ArgValue::Flag(value),
            r.name is None,
    {
        Arg { value: ArgValue::Flag(value), name: None }
    }

    /// The same argument, introduced by the flag `name`.
    pub fn name(self, name: String) -> (r: Arg)
        ensures
            r.value == self.value,
            r.name == Some(name),
    {
        Arg { value: self.value, name: Some(name) }
    }
}

/// Whether `w` is `v` with every value formatted by `f`.
pub open spec fn formatted<F: Fn(String) -> String>(f: F, v: ArgValue, w: ArgValue) -> bool {
    match (v, w) {
        (ArgValue::Scalar(a), ArgValue::Scalar(b)) => f.ensures((a,), b),
        (ArgValue::Repeated(a), ArgValue::Repeated(b)) => a@.len() == b@.len() && forall|i: int|
            0 <= i < a@.len() ==> f.ensures((a@[i],), #[trigger] b@[i]),
        (ArgValue::Flag(a), ArgValue::Flag(b)) => a == b,
        _ => false,
    }
}

impl Arg {
    /// The same argument with every value formatted by `formatter`, so that a value whose
    /// configuration form differs from its command-line form can be given to clap.
    pub fn value_format<F: Fn(String) -> String>(self, formatter: F) -> (r: Arg)
        requires
            forall|s: String| formatter.requires((s,)),
        ensures
            r.name == self.name,
            formatted(formatter, self.value, r.value),
    {
        let value = match self.value {
            ArgValue::Scalar(v) => ArgValue::Scalar(formatter(v)),
            ArgValue::Repeated(vs) => {
                let ghost all = vs@;
                let mut rest = vs;
                let mut out: Vec<String> = Vec::new();
                while rest.len() > 0
                    invariant
                        forall|s: String| formatter.requires((s,)),
                        out@.len() <= all.len(),
                        rest@ == all.skip(out@.len() as int),
                        forall|i: int| 0 <= i < out@.len() ==> formatter.ensures((all[i],), #[trigger] out@[i]),
                    decreases rest.len(),
                {
                    let v = rest.remove(0);
                    proof {
                        assert(v == all[out@.len() as int]);
                    }
                    out.push(formatter(v));
                    proof {
                        assert(rest@ =~= all.skip(out@.len() as int));
                    }
                }
                ArgValue::Repeated(out)
            },
            ArgValue::Flag(b) => ArgValue::Flag(b),
        };
        Arg { value, name: self.name }
    }
}

impl IntoArgs for Arg {
    open spec fn spec_args(&self) -> Seq<Seq<char>> {
        arg_texts(self.value, self.name)
    }

    fn extend_args(self, args: &mut Vec<String>) {
        let ghost spec = self.spec_args();
        let ghost name = self.name;
        let ghost start = args.deep_view();
        match self.value {
            ArgValue::Scalar(value) => {
                match self.name {
                    Some(n) => push_text(args, n),
                    None => {},
                }
                push_text(args, value);
                proof {
                    assert(args.deep_view() =~= start + spec);
                }
            },
            ArgValue::Repeated(values) => {
                let ghost vs = values.deep_view();
                let mut i: usize = 0;
                while i < values.len()
                    invariant
                        i <= values.len(),
                        vs == values.deep_view(),
                        args.deep_view() == start + interleave(name, vs.take(i as int)),
                        spec == interleave(name, vs),
                        name == self.name,
                    decreases values.len() - i,
                {
                    let ghost before = args.deep_view();
                    match &self.name {
                        Some(n) => push_text(args, n.clone()),
                        None => {},
                    }
                    push_text(args, values[i].clone());
                    proof {
                        assert(vs.take(i + 1).drop_last() =~= vs.take(i as int));
                        assert(vs.take(i + 1).last() == vs[i as int]);
                        assert(args.deep_view() =~= start + interleave(name, vs.take(i + 1)));
                    }
                    i = i + 1;
                }
                proof {
                    assert(vs.take(values.len() as int) =~= vs);
                }
            },
            ArgValue::Flag(value) => {
                if value {
                    match self.name {
                        Some(n) => push_text(args, n),
                        None => {},
                    }
                }
                proof {
                    assert(args.deep_view() =~= start + spec);
                }
            },
        }
    }
}

impl<T: IntoArgs> IntoArgs for Option<T> {
    open spec fn spec_args(&self) -> Seq<Seq<char>> {
        match self {
            Some(v) => v.spec_args(),
            None => Seq::empty(),
        }
    }

    fn extend_args(self, args: &mut Vec<String>) {
        match self {
            Some(v) => v.extend_args(args),
            None => {
                proof {
                    assert(args.deep_view() =~= old(args).deep_view() + Seq::<Seq<char>>::empty());
                }
            },
        }
    }
}

} // verus!
