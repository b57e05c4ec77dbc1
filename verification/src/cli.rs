//! Command line options of the editor binary.

use vstd::prelude::*;
use crate::text::str_eq;

verus! {

/// Options given on the command line.
#[derive(Debug, Clone, PartialEq, Eq)]
pub struct CliOptions {
    /// Path of the configuration file (`-c` / `--config`).
    pub config_path: Option<String>,
    /// Whether `-a`, `--about` or `about` was given.
    pub about: bool,
    /// Whether `-v`, `--version` or `version` was given.
    pub version: bool,
}

/// The value of command line options.
pub struct CliView {
    pub config_path: Option<Seq<char>>,
    pub about: bool,
    pub version: bool,
}

impl View for CliOptions {
    type V = CliView;

    open spec fn view(&self) -> CliView {
        CliView {
            config_path: match self.config_path {
                Some(p) => Some(p@),
                None => None,
            },
            about: self.about,
            version: self.version,
        }
    }
}

/// Whether an argument names the configuration file flag.
pub open spec fn is_config_flag(a: Seq<char>) -> bool {
    a == "-c"@ || a == "--config"@
}

/// Whether an argument asks for the about text.
pub open spec fn is_about_flag(a: Seq<char>) -> bool {
    a == "-a"@ || a == "--about"@ || a == "about"@
}

/// Whether an argument asks for the version.
pub open spec fn is_version_flag(a: Seq<char>) -> bool {
    a == "-v"@ || a == "--version"@ || a == "version"@
}

/// The options after scanning `args` from index `i` on, starting from `st`: a
/// configuration flag takes the next argument as the path (a last one takes
/// nothing), the about and version flags set their option, and anything else
/// is skipped.
pub open spec fn scan_args(args: Seq<Seq<char>>, i: int, st: CliView) -> CliView
    decreases args.len() - i,
{
    if i < 0 || i >= args.len() {
        st
    } else if is_config_flag(args[i]) {
        if i + 1 < args.len() {
            scan_args(args, i + 2, CliView { config_path: Some(args[i + 1]), ..st })
        } else {
            st
        }
    } else if is_about_flag(args[i]) {
        scan_args(args, i + 1, CliView { about: true, ..st })
    } else if is_version_flag(args[i]) {
        scan_args(args, i + 1, CliView { version: true, ..st })
    } else {
        scan_args(args, i + 1, st)
    }
}

/// The texts of a list of arguments.
pub open spec fn args_view(args: Seq<&str>) -> Seq<Seq<char>> {
    args.map_values(|a: &str| a@)
}

/// The options that a command line gives; its first item (the program's name)
/// is skipped.
pub open spec fn parse_spec(args: Seq<Seq<char>>) -> CliView {
    scan_args(args, 1, CliView { config_path: None, about: false, version: false })
}

fn arg_is_config_flag(a: &str) -> (r: bool)
    ensures
        r == is_config_flag(a@),
{
    str_eq(a, "-c") || str_eq(a, "--config")
}

fn arg_is_about_flag(a: &str) -> (r: bool)
    ensures
        r == is_about_flag(a@),
{
    str_eq(a, "-a") || str_eq(a, "--about") || str_eq(a, "about")
}

fn arg_is_version_flag(a: &str) -> (r: bool)
    ensures
        r == is_version_flag(a@),
{
    str_eq(a, "-v") || str_eq(a, "--version") || str_eq(a, "version")
}

impl Default for CliOptions {
    fn default() -> (r: Self)
        ensures
            r@ == (CliView { config_path: None, about: false, version: false }),
    {
        CliOptions { config_path: None, about: false, version: false }
    }
}

impl CliOptions {
    /// Parses a command line whose first item is the program's name.
    pub fn parse_from(args: Vec<&str>) -> (r: Self)
        ensures
            r@ == parse_spec(args_view(args@)),
    {
        let ghost av = args_view(args@);
        let mut config_path: Option<String> = None;
        let mut about = false;
        let mut version = false;
        let mut i: usize = 1;
        while i < args.len()
            invariant
                1 <= i,
                av == args_view(args@),
                parse_spec(av) == scan_args(av, i as int, (CliOptions { config_path, about, version })@),
            decreases args.len() - i,
        {
            let a = args[i];
            assert(av[i as int] == a@);
            if arg_is_config_flag(a) {
                if i + 1 < args.len() {
                    let p = args[i + 1];
                    assert(av[i + 1] == p@);
                    config_path = Some(p.to_owned());
                    i = i + 2;
                } else {
                    i = args.len();
                }
            } else {
                if arg_is_about_flag(a) {
                    about = true;
                } else if arg_is_version_flag(a) {
                    version = true;
                }
                i = i + 1;
            }
        }
        CliOptions { config_path, about, version }
    }
}

} // verus!
