//! The shapes of Rust types and expressions that the derive inspects: type paths such as
//! `Option<String>`, tuples, and the identifiers of attribute arguments.

use vstd::prelude::*;
use crate::text::str_eq;

verus! {

/// A generic argument of a path segment.
#[derive(Debug)]
pub enum GenericArg {
    Type(TypeModel),
    Other,
}

/// The arguments of a path segment.
#[derive(Debug)]
pub enum PathArguments {
    Bare,
    AngleBracketed(Vec<GenericArg>),
    Parenthesized,
}

/// One segment of a path, such as `Option<String>` in `std::option::Option<String>`.
#[derive(Debug)]
pub struct PathSegment {
    pub ident: String,
    pub arguments: PathArguments,
}

/// A path, such as `std::path::PathBuf` or `::serde::Deserialize`.
#[derive(Debug)]
pub struct PathModel {
    pub leading_colon: bool,
    pub segments: Vec<PathSegment>,
}

/// A Rust type as far as the derive looks into it.
#[derive(Debug)]
pub enum TypeModel {
    Path(PathModel),
    Tuple(Vec<TypeModel>),
    Other,
}

/// An expression inside an attribute, such as `long`, `default_value = "x"` or `alias("y")`.
#[derive(Debug)]
pub enum ExprModel {
    Path(PathModel),
    Assign { left: Box<ExprModel> },
    Call { func: Box<ExprModel> },
    Other,
}

/// The identifier a path consists of, when it is a single plain segment.
pub open spec fn path_ident(p: PathModel) -> Option<Seq<char>> {
    if !p.leading_colon && p.segments@.len() == 1 && p.segments@[0].arguments is Bare {
        Some(p.segments@[0].ident@)
    } else {
        None
    }
}

/// The last segment of a path type.
pub open spec fn last_segment(t: TypeModel) -> Option<PathSegment> {
    match t {
        TypeModel::Path(p) => if p.segments@.len() > 0 {
            Some(p.segments@.last())
        } else {
            None
        },
        _ => None,
    }
}

/// The identifier of the last segment of a path type.
pub open spec fn type_ident(t: TypeModel) -> Option<Seq<char>> {
    match last_segment(t) {
        Some(s) => Some(s.ident@),
        None => None,
    }
}

/// Whether the last segment of a path type is named `ident`.
pub open spec fn type_is(t: TypeModel, ident: Seq<char>) -> bool {
    type_ident(t) == Some(ident)
}

/// The type inside `Option<..>`: the first generic argument of a last segment named `Option`,
/// when that argument is a type.
pub open spec fn option_inner(t: TypeModel) -> Option<TypeModel> {
    match last_segment(t) {
        Some(s) => if s.ident@ == "Option"@ {
            match s.arguments {
                PathArguments::AngleBracketed(args) => if args@.len() > 0 {
                    match args@[0] {
                        GenericArg::Type(ty) => Some(ty),
                        GenericArg::Other => None,
                    }
                } else {
                    None
                },
                _ => None,
            }
        } else {
            None
        },
        None => None,
    }
}

/// The element type of `Vec<..>`: the first generic argument of a last segment named `Vec`,
/// when that argument is a type.
pub open spec fn vec_inner(t: TypeModel) -> Option<TypeModel> {
    match last_segment(t) {
        Some(s) => if s.ident@ == "Vec"@ {
            match s.arguments {
                PathArguments::AngleBracketed(args) => if args@.len() > 0 {
                    match args@[0] {
                        GenericArg::Type(ty) => Some(ty),
                        GenericArg::Other => None,
                    }
                } else {
                    None
                },
                _ => None,
            }
        } else {
            None
        },
        None => None,
    }
}

/// The type of each value a field of type `t` holds: inside `Option<..>` when it is one, then
/// the element of `Vec<..>` when it is one.
pub open spec fn value_type(t: TypeModel) -> TypeModel {
    let u = match option_inner(t) {
        Some(inner) => inner,
        None => t,
    };
    match vec_inner(u) {
        Some(e) => e,
        None => u,
    }
}

/// Whether a type is `Option<ident>`.
pub open spec fn type_is_option_of(t: TypeModel, ident: Seq<char>) -> bool {
    match option_inner(t) {
        Some(inner) => type_is(inner, ident),
        None => false,
    }
}

/// Whether `r` is the one-segment path type `Option<t>`.
pub open spec fn wraps_in_option(r: TypeModel, t: TypeModel) -> bool {
    match r {
        TypeModel::Path(p) => {
            &&& !p.leading_colon
            &&& p.segments@.len() == 1
            &&& p.segments@[0].ident@ == "Option"@
            &&& match p.segments@[0].arguments {
                PathArguments::AngleBracketed(args) => args@ == seq![GenericArg::Type(t)],
                _ => false,
            }
        },
        _ => false,
    }
}

impl PathModel {
    /// The identifier this path consists of, when it is a single plain segment.
    pub fn get_ident(&self) -> (r: Option<&String>)
        ensures
            match r {
                Some(s) => path_ident(*self) == Some(s@),
                None => path_ident(*self) is None,
            },
    {
        if !self.leading_colon && self.segments.len() == 1 {
            match &self.segments[0].arguments {
                PathArguments::Bare => Some(&self.segments[0].ident),
                _ => None,
            }
        } else {
            None
        }
    }

    /// Whether this path is the single identifier `ident`.
    pub fn is_ident(&self, ident: &str) -> (r: bool)
        ensures
            r == (path_ident(*self) == Some(ident@)),
    {
        match self.get_ident() {
            Some(s) => str_eq(s.as_str(), ident),
            None => false,
        }
    }
}

impl TypeModel {
    /// The last segment of a path type.
    fn last_segment(&self) -> (r: Option<&PathSegment>)
        ensures
            match r {
                Some(s) => last_segment(*self) == Some(*s),
                None => last_segment(*self) is None,
            },
    {
        match self {
            TypeModel::Path(p) => {
                let n = p.segments.len();
                if n > 0 {
                    Some(&p.segments[n - 1])
                } else {
                    None
                }
            },
            _ => None,
        }
    }

    /// The identifier of the last segment of a path type.
    pub fn ident(&self) -> (r: Option<&String>)
        ensures
            match r {
                Some(s) => type_ident(*self) == Some(s@),
                None => type_ident(*self) is None,
            },
    {
        match self.last_segment() {
            Some(s) => Some(&s.ident),
            None => None,
        }
    }

    /// Whether this is the empty tuple `()`.
    pub fn is_unit(&self) -> (r: bool)
        ensures
            r == (*self matches TypeModel::Tuple(elems) && elems@.len() == 0),
    {
        match self {
            TypeModel::Tuple(elems) => elems.len() == 0,
            _ => false,
        }
    }

    /// Whether the last segment of this path type is named `ident`.
    pub fn is(&self, ident: &str) -> (r: bool)
        ensures
            r == type_is(*self, ident@),
    {
        match self.ident() {
            Some(s) => str_eq(s.as_str(), ident),
            None => false,
        }
    }

    /// The type inside `Option<..>`, when this is an `Option`.
    fn option_inner(&self) -> (r: Option<&TypeModel>)
        ensures
            match r {
                Some(t) => option_inner(*self) == Some(*t),
                None => option_inner(*self) is None,
            },
    {
        match self.last_segment() {
            Some(s) => {
                if str_eq(s.ident.as_str(), "Option") {
                    match &s.arguments {
                        PathArguments::AngleBracketed(args) => {
                            if args.len() > 0 {
                                match &args[0] {
                                    GenericArg::Type(ty) => Some(ty),
                                    GenericArg::Other => None,
                                }
                            } else {
                                None
                            }
                        },
                        _ => None,
                    }
                } else {
                    None
                }
            },
            None => None,
        }
    }

    /// The element type inside `Vec<..>`, when this is a `Vec`.
    fn vec_inner(&self) -> (r: Option<&TypeModel>)
        ensures
            match r {
                Some(t) => vec_inner(*self) == Some(*t),
                None => vec_inner(*self) is None,
            },
    {
        match self.last_segment() {
            Some(s) => {
                if str_eq(s.ident.as_str(), "Vec") {
                    match &s.arguments {
                        PathArguments::AngleBracketed(args) => {
                            if args.len() > 0 {
                                match &args[0] {
                                    GenericArg::Type(ty) => Some(ty),
                                    GenericArg::Other => None,
                                }
                            } else {
                                None
                            }
                        },
                        _ => None,
                    }
                } else {
                    None
                }
            },
            None => None,
        }
    }

    /// The type of each value this type holds.
    pub fn value_type(&self) -> (r: &TypeModel)
        ensures
            *r == value_type(*self),
    {
        let u = self.unwrap_option();
        match u.vec_inner() {
            Some(e) => e,
            None => u,
        }
    }

    /// Whether this type is `Option<ident>`.
    pub fn is_option_of(&self, ident: &str) -> (r: bool)
        ensures
            r == type_is_option_of(*self, ident@),
    {
        match self.option_inner() {
            Some(inner) => inner.is(ident),
            None => false,
        }
    }

    /// The type inside `Option<..>`, or this type when it is no `Option`.
    pub fn unwrap_option(&self) -> (r: &TypeModel)
        ensures
            match option_inner(*self) {
                Some(inner) => *r == inner,
                None => *r == *self,
            },
    {
        match self.option_inner() {
            Some(inner) => inner,
            None => self,
        }
    }

    /// This type when it is already an `Option`, and `Option<..>` of it otherwise.
    pub fn to_option(self) -> (r: TypeModel)
        ensures
            type_is(self, "Option"@) ==> r == self,
            !type_is(self, "Option"@) ==> wraps_in_option(r, self),
    {
        if self.is("Option") {
            self
        } else {
            let ghost t = self;
            let mut args: Vec<GenericArg> = Vec::new();
            args.push(GenericArg::Type(self));
            let mut segments: Vec<PathSegment> = Vec::new();
            segments.push(
                PathSegment {
                    ident: String::from_str("Option"),
                    arguments: PathArguments::AngleBracketed(args),
                },
            );
            let r = TypeModel::Path(PathModel { leading_colon: false, segments });
            proof {
                assert(args@ =~= seq![GenericArg::Type(t)]);
            }
            r
        }
    }
}

impl ExprModel {
    /// The identifier that names this expression: a plain identifier, the left side of an
    /// assignment, or the function of a call.
    pub fn ident(&self) -> (r: Option<&String>)
        ensures
            match r {
                Some(s) => expr_ident(*self) == Some(s@),
                None => expr_ident(*self) is None,
            },
    {
        match self {
            ExprModel::Path(p) => p.get_ident(),
            ExprModel::Assign { left } => match &**left {
                ExprModel::Path(p) => p.get_ident(),
                _ => None,
            },
            ExprModel::Call { func } => match &**func {
                ExprModel::Path(p) => p.get_ident(),
                _ => None,
            },
            ExprModel::Other => None,
        }
    }
}

/// The identifier that names an expression: a plain identifier, the left side of an
/// assignment, or the function of a call.
pub open spec fn expr_ident(e: ExprModel) -> Option<Seq<char>> {
    match e {
        ExprModel::Path(p) => path_ident(p),
        ExprModel::Assign { left } => match *left {
            ExprModel::Path(p) => path_ident(p),
            _ => None,
        },
        ExprModel::Call { func } => match *func {
            ExprModel::Path(p) => path_ident(p),
            _ => None,
        },
        ExprModel::Other => None,
    }
}

} // verus!
