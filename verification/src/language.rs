//! The language shown for a file, from its path.

use vstd::prelude::*;
use crate::text::{lowercase, str_eq, str_to_lowercase};
use crate::yaml::opt_view;

verus! {

/// The extension `std::path::Path::extension` gives for a path, as text.
pub uninterp spec fn path_extension(path: Seq<char>) -> Option<Seq<char>>;

/// The file name `std::path::Path::file_name` gives for a path, as text.
pub uninterp spec fn path_file_name(path: Seq<char>) -> Option<Seq<char>>;

/// `Path::extension` of the path, as a `String`. Claimed: the result is the named
/// extension of the path's text (a function of the text alone); what
/// `Path::extension` picks out of a path is left unstated.
#[verifier::external_body]
fn extension_of(path: &str) -> (r: Option<String>)
    ensures
        opt_view(r) == path_extension(path@),
{
    std::path::Path::new(path).extension().and_then(|s| s.to_str()).map(|s| s.to_owned())
}

/// `Path::file_name` of the path, as a `String`. Claimed: the result is the named
/// file name of the path's text (a function of the text alone); what
/// `Path::file_name` picks out of a path is left unstated.
#[verifier::external_body]
fn file_name_of(path: &str) -> (r: Option<String>)
    ensures
        opt_view(r) == path_file_name(path@),
{
    std::path::Path::new(path).file_name().and_then(|s| s.to_str()).map(|s| s.to_owned())
}

/// The language named by a lowercase file extension.
pub open spec fn extension_language(ext: Seq<char>) -> Seq<char> {
    if ext == "rs"@ {
        "Rust"@
    } else if ext == "md"@ {
        "Markdown"@
    } else if ext == "toml"@ {
        "TOML"@
    } else if ext == "json"@ {
        "JSON"@
    } else if ext == "yaml"@ || ext == "yml"@ {
        "YAML"@
    } else if ext == "tf"@ {
        "Terraform"@
    } else if ext == "sh"@ || ext == "bash"@ || ext == "zsh"@ {
        "Shell"@
    } else if ext == "c"@ || ext == "h"@ {
        "C"@
    } else if ext == "cpp"@ || ext == "hpp"@ {
        "C++"@
    } else if ext == "js"@ {
        "JavaScript"@
    } else if ext == "ts"@ {
        "TypeScript"@
    } else if ext == "py"@ {
        "Python"@
    } else if ext == "go"@ {
        "Go"@
    } else {
        "Plain Text"@
    }
}

/// The language of a file with the given extension and file name (as
/// `Path::extension` and `Path::file_name` give them): by the lowercased
/// extension when there is one, else `Dockerfile` for a file named so in any
/// case, else plain text.
pub open spec fn language_of(ext: Option<Seq<char>>, name: Option<Seq<char>>) -> Seq<char> {
    match ext {
        Some(e) => extension_language(lowercase(e)),
        None => match name {
            Some(n) => if lowercase(n) == "dockerfile"@ {
                "Dockerfile"@
            } else {
                "Plain Text"@
            },
            None => "Plain Text"@,
        },
    }
}

/// The language named by a lowercase file extension.
pub fn language_for_extension(ext: &str) -> (r: &'static str)
    ensures
        r@ == extension_language(ext@),
{
    if str_eq(ext, "rs") {
        "Rust"
    } else if str_eq(ext, "md") {
        "Markdown"
    } else if str_eq(ext, "toml") {
        "TOML"
    } else if str_eq(ext, "json") {
        "JSON"
    } else if str_eq(ext, "yaml") || str_eq(ext, "yml") {
        "YAML"
    } else if str_eq(ext, "tf") {
        "Terraform"
    } else if str_eq(ext, "sh") || str_eq(ext, "bash") || str_eq(ext, "zsh") {
        "Shell"
    } else if str_eq(ext, "c") || str_eq(ext, "h") {
        "C"
    } else if str_eq(ext, "cpp") || str_eq(ext, "hpp") {
        "C++"
    } else if str_eq(ext, "js") {
        "JavaScript"
    } else if str_eq(ext, "ts") {
        "TypeScript"
    } else if str_eq(ext, "py") {
        "Python"
    } else if str_eq(ext, "go") {
        "Go"
    } else {
        "Plain Text"
    }
}

/// The language of a file with the given extension and file name.
pub fn language_for(extension: Option<&str>, file_name: Option<&str>) -> (r: &'static str)
    ensures
        r@ == language_of(
            match extension {
                Some(e) => Some(e@),
                None => None,
            },
            match file_name {
                Some(n) => Some(n@),
                None => None,
            },
        ),
{
    match extension {
        Some(ext) => {
            let lower = str_to_lowercase(ext);
            language_for_extension(lower.as_str())
        },
        None => match file_name {
            Some(name) => {
                let lower = str_to_lowercase(name);
                if str_eq(lower.as_str(), "dockerfile") {
                    "Dockerfile"
                } else {
                    "Plain Text"
                }
            },
            None => "Plain Text",
        },
    }
}

/// The language shown for the file at `path`.
pub fn detect_language(path: &str) -> (r: &'static str)
    ensures
        r@ == language_of(path_extension(path@), path_file_name(path@)),
{
    let ext = extension_of(path);
    let name = file_name_of(path);
    let e = match &ext {
        Some(s) => Some(s.as_str()),
        None => None,
    };
    let n = match &name {
        Some(s) => Some(s.as_str()),
        None => None,
    };
    language_for(e, n)
}

} // verus!
