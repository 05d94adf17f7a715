//! The command line of the compiler: which command the arguments ask for,
//! or why they ask for none.
use vstd::prelude::*;
use crate::token::same_text;

verus! {

/// A command given on the command line.
#[derive(Debug)]
pub enum Command {
    /// Compile the source file at this path.
    Build(String),
    /// Run the source file at this path.
    Run(String),
    /// Print the usage.
    Help,
    /// Print the version.
    Version,
}

/// Why the arguments name no command.
#[derive(Debug)]
pub enum CLIError {
    /// The source path names no file.
    FileNotFound(String),
    /// The source path does not end in `.crw`.
    InvalidFileExtension,
    /// An unknown command, or a known one with the wrong number of arguments.
    InvalidCommand(String),
    /// No command at all.
    MissingArgument,
}

/// The extension of the final component of path `p`, as std's `Path`
/// reads it: the text after the last dot of the file name, if any.
pub uninterp spec fn path_extension(p: Seq<char>) -> Option<Seq<char>>;

/// Relies on `std::path::Path::extension`: the extension of the path's file
/// name, which depends on the path's text alone. A part of a `str` is valid
/// UTF-8, so no character is replaced in the conversion.
#[verifier::external_body]
fn extension(p: &str) -> (r: Option<String>)
    ensures
        r is Some <==> path_extension(p@) is Some,
        r is Some ==> r->Some_0@ == path_extension(p@)->Some_0,
{
    match std::path::Path::new(p).extension() {
        Some(e) => Some(e.to_string_lossy().into_owned()),
        None => None,
    }
}

/// The extension that source files carry.
pub open spec fn source_extension() -> Seq<char> {
    seq!['c', 'r', 'w']
}

/// Whether path `p` has the extension of a source file.
pub fn has_crw_extension(p: &str) -> (r: bool)
    ensures
        r == (path_extension(p@) == Some(source_extension())),
{
    proof {
        reveal_strlit("crw");
        assert("crw"@ =~= source_extension());
    }
    match extension(p) {
        Some(e) => same_text(e.as_str(), "crw"),
        None => false,
    }
}

/// What the arguments `args` (the program's name first) ask for, where
/// `source_is_file` says whether the third argument names an existing file.
/// `build` or `run` with a path to an existing `.crw` file; `-h`/`--help` or
/// `-v`/`--version` alone; anything else is refused, the path's existence
/// checked before its extension.
pub fn parse_args(args: &[String], source_is_file: bool) -> (r: Result<Command, CLIError>)
    ensures
        ({
            let a = args@;
            let build = args@.len() >= 2 && a[1]@ == seq!['b', 'u', 'i', 'l', 'd'];
            let run = args@.len() >= 2 && a[1]@ == seq!['r', 'u', 'n'];
            let help = args@.len() >= 2 && (a[1]@ == seq!['-', 'h'] || a[1]@ == seq![
                '-',
                '-',
                'h',
                'e',
                'l',
                'p',
            ]);
            let version = args@.len() >= 2 && (a[1]@ == seq!['-', 'v'] || a[1]@ == seq![
                '-',
                '-',
                'v',
                'e',
                'r',
                's',
                'i',
                'o',
                'n',
            ]);
            if a.len() == 3 && (build || run) {
                if !source_is_file {
                    r matches Err(CLIError::FileNotFound(p)) && p@ == a[2]@
                } else if path_extension(a[2]@) != Some(source_extension()) {
                    r matches Err(CLIError::InvalidFileExtension)
                } else if build {
                    r matches Ok(Command::Build(p)) && p@ == a[2]@
                } else {
                    r matches Ok(Command::Run(p)) && p@ == a[2]@
                }
            } else if a.len() == 2 && help {
                r matches Ok(Command::Help)
            } else if a.len() == 2 && version {
                r matches Ok(Command::Version)
            } else if a.len() >= 2 {
                r matches Err(CLIError::InvalidCommand(c)) && c@ == a[1]@
            } else {
                r matches Err(CLIError::MissingArgument)
            }
        }),
{
    proof {
        reveal_strlit("build");
        reveal_strlit("run");
        reveal_strlit("-h");
        reveal_strlit("--help");
        reveal_strlit("-v");
        reveal_strlit("--version");
        assert("build"@ =~= seq!['b', 'u', 'i', 'l', 'd']);
        assert("run"@ =~= seq!['r', 'u', 'n']);
        assert("-h"@ =~= seq!['-', 'h']);
        assert("--help"@ =~= seq!['-', '-', 'h', 'e', 'l', 'p']);
        assert("-v"@ =~= seq!['-', 'v']);
        assert("--version"@ =~= seq!['-', '-', 'v', 'e', 'r', 's', 'i', 'o', 'n']);
    }
    if args.len() < 2 {
        return Err(CLIError::MissingArgument);
    }
    let command = args[1].as_str();
    let build = same_text(command, "build");
    let run = same_text(command, "run");
    if args.len() == 3 && (build || run) {
        let path = args[2].as_str();
        if !source_is_file {
            return Err(CLIError::FileNotFound(path.to_owned()));
        }
        if !has_crw_extension(path) {
            return Err(CLIError::InvalidFileExtension);
        }
        if build {
            return Ok(Command::Build(path.to_owned()));
        }
        return Ok(Command::Run(path.to_owned()));
    }
    if args.len() == 2 && (same_text(command, "-h") || same_text(command, "--help")) {
        return Ok(Command::Help);
    }
    if args.len() == 2 && (same_text(command, "-v") || same_text(command, "--version")) {
        return Ok(Command::Version);
    }
    Err(CLIError::InvalidCommand(command.to_owned()))
}

} // verus!
