//! Where the configuration comes from: the file path given on the command line and the format
//! it is read in.

use vstd::prelude::*;
use crate::input;
use crate::text::{ends_with, is_suffix, str_eq};

verus! {

/// Supported configuration file formats.
#[derive(Debug, Clone, Copy, PartialEq, Eq, Structural)]
pub enum ConfigFormat {
    Toml,
    Yaml,
    Json,
}

/// The extension `std::path::Path::extension` finds in a path.
pub uninterp spec fn path_extension(path: Seq<char>) -> Option<Seq<char>>;

/// Calls `std::path::Path::extension` on `path`; the result is the named extension of the
/// path (always text, as the path is).
#[verifier::external_body]
fn extension_of(path: &str) -> (r: Option<String>)
    ensures
        match r {
            Some(e) => path_extension(path@) == Some(e@),
            None => path_extension(path@) is None,
        },
{
    std::path::Path::new(path).extension().and_then(|e| e.to_str()).map(|e| e.to_string())
}

/// The format a file extension stands for: `toml`, `yaml` or `yml`, `json`.
pub open spec fn format_of_extension(ext: Seq<char>) -> Option<ConfigFormat> {
    if ext == "toml"@ {
        Some(ConfigFormat::Toml)
    } else if ext == "yaml"@ || ext == "yml"@ {
        Some(ConfigFormat::Yaml)
    } else if ext == "json"@ {
        Some(ConfigFormat::Json)
    } else {
        None
    }
}

/// The format a file extension stands for.
pub fn format_for_extension(ext: &str) -> (r: Option<ConfigFormat>)
    ensures
        r == format_of_extension(ext@),
{
    if str_eq(ext, "toml") {
        Some(ConfigFormat::Toml)
    } else if str_eq(ext, "yaml") || str_eq(ext, "yml") {
        Some(ConfigFormat::Yaml)
    } else if str_eq(ext, "json") {
        Some(ConfigFormat::Json)
    } else {
        None
    }
}

/// The format inferred for a path: that of its extension.
pub open spec fn inferred_format(path: Seq<char>) -> Option<ConfigFormat> {
    match path_extension(path) {
        Some(ext) => format_of_extension(ext),
        None => None,
    }
}

/// The format a configuration path is read in, inferred from its extension as
/// `Path::extension` finds it (a file name such as `.toml` has none); none when there is no
/// path or the extension names no supported format.
pub fn config_format(path: Option<&str>) -> (r: Option<ConfigFormat>)
    ensures
        r == match path {
            Some(p) => inferred_format(p@),
            None => None,
        },
{
    match path {
        Some(p) => match extension_of(p) {
            Some(ext) => format_for_extension(ext.as_str()),
            None => None,
        },
        None => None,
    }
}

/// The format a path's ending names: `.toml`, `.yaml` or `.yml`, `.json`.
pub open spec fn format_of_suffix(path: Seq<char>) -> Option<ConfigFormat> {
    if is_suffix(".toml"@, path) {
        Some(ConfigFormat::Toml)
    } else if is_suffix(".yaml"@, path) || is_suffix(".yml"@, path) {
        Some(ConfigFormat::Yaml)
    } else if is_suffix(".json"@, path) {
        Some(ConfigFormat::Json)
    } else {
        None
    }
}

/// The format a path's ending names, read from the text of the path.
pub fn format_by_suffix(path: &str) -> (r: Option<ConfigFormat>)
    ensures
        r == format_of_suffix(path@),
{
    if ends_with(path, ".toml") {
        Some(ConfigFormat::Toml)
    } else if ends_with(path, ".yaml") || ends_with(path, ".yml") {
        Some(ConfigFormat::Yaml)
    } else if ends_with(path, ".json") {
        Some(ConfigFormat::Json)
    } else {
        None
    }
}

/// The format forced by `#[config(format = "..")]`; `auto`, or no attribute, forces none.
pub open spec fn forced_format(f: Option<input::ConfigFormat>) -> Option<ConfigFormat> {
    match f {
        Some(input::ConfigFormat::Toml) => Some(ConfigFormat::Toml),
        Some(input::ConfigFormat::Yaml) => Some(ConfigFormat::Yaml),
        Some(input::ConfigFormat::Json) => Some(ConfigFormat::Json),
        _ => None,
    }
}

/// The format forced by `#[config(format = "..")]`.
pub fn format_override(f: Option<input::ConfigFormat>) -> (r: Option<ConfigFormat>)
    ensures
        r == forced_format(f),
{
    match f {
        Some(input::ConfigFormat::Toml) => Some(ConfigFormat::Toml),
        Some(input::ConfigFormat::Yaml) => Some(ConfigFormat::Yaml),
        Some(input::ConfigFormat::Json) => Some(ConfigFormat::Json),
        _ => None,
    }
}

/// The format the configuration file is read in: the forced one, else the one its path's
/// extension names.
pub fn effective_format(forced: Option<input::ConfigFormat>, path: Option<&str>) -> (r: Option<
    ConfigFormat,
>)
    ensures
        r == match forced_format(forced) {
            Some(f) => Some(f),
            None => match path {
                Some(p) => inferred_format(p@),
                None => None,
            },
        },
{
    match format_override(forced) {
        Some(f) => Some(f),
        None => config_format(path),
    }
}

} // verus!
