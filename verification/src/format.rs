//! Formatters for values whose command-line text differs from their configuration form.

use std::path::PathBuf;
use vstd::prelude::*;

verus! {

/// A filesystem path (`std::path::PathBuf`), carried through as it is.
#[verifier::external_type_specification]
#[verifier::external_body]
pub struct ExPathBuf(PathBuf);

/// The text a path buffer holds, as `Path::display` renders it.
pub uninterp spec fn displayed_path(p: PathBuf) -> Seq<char>;

/// Calls `Path::display` and renders it to text; the result is the named display text of the
/// path.
#[verifier::external_body]
fn display_path(value: &PathBuf) -> (r: String)
    ensures
        r@ == displayed_path(*value),
{
    value.display().to_string()
}

/// The command-line text of a path: its display text.
pub fn path(value: PathBuf) -> (r: String)
    ensures
        r@ == displayed_path(value),
{
    display_path(&value)
}


/// Formats a value into the text of a command-line argument.
pub trait FormatArg<T> {
    /// Whether `value` can be formatted.
    spec fn accepts(&self, value: T) -> bool;

    /// Whether `text` is a formatting of `value`.
    spec fn formats_to(&self, value: T, text: String) -> bool;

    /// Formats `value`.
    fn format(&self, value: T) -> (r: String)
        requires
            self.accepts(value),
        ensures
            self.formats_to(value, r),
    ;
}

/// Formats a value as its own text.
#[derive(Debug, Clone, Copy)]
pub struct DefaultFormat;

impl FormatArg<String> for DefaultFormat {
    open spec fn accepts(&self, value: String) -> bool {
        true
    }

    open spec fn formats_to(&self, value: String, text: String) -> bool {
        text@ == value@
    }

    fn format(&self, value: String) -> (r: String) {
        value
    }
}

/// Formats a value with the given function.
#[derive(Debug)]
pub struct CustomFormat<F>(pub F);

impl<F: Fn(String) -> String> FormatArg<String> for CustomFormat<F> {
    open spec fn accepts(&self, value: String) -> bool {
        self.0.requires((value,))
    }

    open spec fn formats_to(&self, value: String, text: String) -> bool {
        self.0.ensures((value,), text)
    }

    fn format(&self, value: String) -> (r: String) {
        (self.0)(value)
    }
}

} // verus!
