//! The failures that wiring can report.

use vstd::prelude::*;

verus! {

/// What went wrong while locating, reading or checking the configuration,
/// or while comparing a destination with its source.
#[derive(Debug, Clone, Copy, PartialEq, Eq, Structural)]
pub enum ErrorType {
    /// The version-control tool could not be run to find the repository root.
    RepositoryRootPathCommand,
    /// The repository root it printed is not valid UTF-8.
    RepositoryRootPathParse,
    /// The repository holds no `.gitwire` file.
    DotGitWireFileNotFound,
    /// The `.gitwire` file is there but cannot be read.
    DotGitWireFileOpen,
    /// The `.gitwire` file does not have the expected form.
    DotGitWireFileParse,
    /// An entry's `src` or `dst` holds `.`, `..` or `.git` as a component.
    DotGitWireFileSoundness,
    /// Two entries carry the same `name`.
    DotGitWireFileNameNotUnique,
    /// The directory for the fetched repositories could not be made.
    TempDirCreation,
    /// The two directories could not be compared.
    CheckDifferenceExecution,
    /// A path found while comparing is not valid UTF-8.
    CheckDifferenceStringReplace,
}

impl ErrorType {
    /// True for the failures that are found before any repository is fetched.
    pub open spec fn is_configuration_error(self) -> bool {
        self is RepositoryRootPathCommand || self is RepositoryRootPathParse
            || self is DotGitWireFileNotFound || self is DotGitWireFileOpen
            || self is DotGitWireFileParse || self is DotGitWireFileSoundness
            || self is DotGitWireFileNameNotUnique
    }

    /// Says whether the failure belongs to the configuration.
    pub fn is_configuration(&self) -> (b: bool)
        ensures
            b == self.is_configuration_error(),
    {
        match self {
            ErrorType::TempDirCreation => false,
            ErrorType::CheckDifferenceExecution => false,
            ErrorType::CheckDifferenceStringReplace => false,
            _ => true,
        }
    }

    /// The text shown to the user for this failure.
    pub fn message(&self) -> (text: &'static str)
        ensures
            text@ == self.message_text(),
    {
        match self {
            ErrorType::RepositoryRootPathCommand => "failed to run the command that finds the repository root",
            ErrorType::RepositoryRootPathParse => "the repository root path is not valid UTF-8",
            ErrorType::DotGitWireFileNotFound => "There is no .gitwire file in this repository",
            ErrorType::DotGitWireFileOpen => "no .gitwire file read permission",
            ErrorType::DotGitWireFileParse => ".gitwire file format is wrong",
            ErrorType::DotGitWireFileSoundness => ".gitwire file's `src` and `dst` must not include '.', '..', and '.git'.",
            ErrorType::DotGitWireFileNameNotUnique => ".gitwire file's `name`s must be differ each other.",
            ErrorType::TempDirCreation => "failed to make a temporary directory",
            ErrorType::CheckDifferenceExecution => "failed to compare the fetched source with the destination",
            ErrorType::CheckDifferenceStringReplace => "a compared path is not valid UTF-8",
        }
    }

    /// The text that [`ErrorType::message`] returns.
    pub open spec fn message_text(self) -> Seq<char> {
        match self {
            ErrorType::RepositoryRootPathCommand => "failed to run the command that finds the repository root"@,
            ErrorType::RepositoryRootPathParse => "the repository root path is not valid UTF-8"@,
            ErrorType::DotGitWireFileNotFound => "There is no .gitwire file in this repository"@,
            ErrorType::DotGitWireFileOpen => "no .gitwire file read permission"@,
            ErrorType::DotGitWireFileParse => ".gitwire file format is wrong"@,
            ErrorType::DotGitWireFileSoundness => ".gitwire file's `src` and `dst` must not include '.', '..', and '.git'."@,
            ErrorType::DotGitWireFileNameNotUnique => ".gitwire file's `name`s must be differ each other."@,
            ErrorType::TempDirCreation => "failed to make a temporary directory"@,
            ErrorType::CheckDifferenceExecution => "failed to compare the fetched source with the destination"@,
            ErrorType::CheckDifferenceStringReplace => "a compared path is not valid UTF-8"@,
        }
    }
}

} // verus!
