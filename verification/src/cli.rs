//! What the command line asks for, once its arguments have been read.
use vstd::prelude::*;
use std::path::PathBuf;

verus! {

/// `std::path::PathBuf`, whose contents this library never looks into: a
/// path is taken from the command line and handed on as it is.
#[verifier::external_type_specification]
#[verifier::external_body]
pub struct ExPathBuf(PathBuf);

/// The dialect of the language.
#[derive(Clone, Copy, Debug, PartialEq, Eq, Structural)]
pub enum LangVersion {
    Lox,
    TypeLox2025,
}

impl Default for LangVersion {
    fn default() -> (r: LangVersion)
        ensures
            r == LangVersion::TypeLox2025,
    {
        LangVersion::TypeLox2025
    }
}

impl LangVersion {
    /// The dialect's name on the command line.
    pub open spec fn label(self) -> Seq<char> {
        match self {
            LangVersion::Lox => "lox"@,
            LangVersion::TypeLox2025 => "type-lox2025"@,
        }
    }

    pub fn name(self) -> (r: &'static str)
        ensures
            r@ == self.label(),
    {
        match self {
            LangVersion::Lox => "lox",
            LangVersion::TypeLox2025 => "type-lox2025",
        }
    }
}

/// What the program is to do.
#[derive(Debug)]
pub enum CliMode {
    /// Start a session that reads and runs line by line.
    Repl,
    /// Run a file.
    Run { file: PathBuf },
    /// Find and run a set of files as tests.
    Test { filter: Option<String>, directory: Option<PathBuf> },
}

/// The arguments of the command line.
#[derive(Debug)]
pub struct Cli {
    /// The subcommand, where one was given.
    pub mode: Option<CliMode>,
    /// A file named without a subcommand.
    pub file: Option<PathBuf>,
}

impl Cli {
    /// What these arguments ask for.
    pub open spec fn chosen(self) -> CliMode {
        match (self.mode, self.file) {
            (Some(mode), _) => mode,
            (None, Some(file)) => CliMode::Run { file },
            (None, None) => CliMode::Repl,
        }
    }

    /// What these arguments ask for: the subcommand where one was given,
    /// else to run the file where one was named, else a session.
    pub fn mode(self) -> (r: CliMode)
        ensures
            r == self.chosen(),
    {
        if let Some(mode) = self.mode {
            mode
        } else if let Some(file) = self.file {
            CliMode::Run { file }
        } else {
            CliMode::Repl
        }
    }
}

} // verus!
