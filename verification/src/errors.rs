use vstd::prelude::*;

verus! {

/// Every failure class of the workflow, surfaced as a typed value to the
/// invocation boundary; no stage recovers or retries internally.
#[derive(Clone, Copy, Debug, PartialEq, Eq, Structural)]
pub enum OpError {
    /// The version string is not of the form `"<uint>.<uint>.<uint>"`,
    /// or a component does not fit the machine word.
    ParseError,
    /// Incrementing a version component would overflow the machine word.
    VersionOverflow,
    /// The manifest file is absent from the working directory.
    ManifestNotFound,
    /// The manifest holds a version field that is not properly delimited.
    ManifestParseError,
    /// The manifest holds no version field at all.
    MissingVersionField,
    /// Rewriting the manifest file failed.
    WriteError,
    /// The environment-variable identity source is selected and a variable
    /// is absent.
    MissingIdentityEnv,
    /// The configuration identity source is selected and a key is absent.
    MissingIdentityConfig,
    /// The working directory is not inside a repository.
    RepositoryNotFound,
    /// Building the tree or writing the commit failed, or the branch has
    /// no head to serve as parent.
    CommitError,
    /// A tag of the requested name already exists; nothing is overwritten.
    TagAlreadyExists,
    /// Writing the tag failed for another reason.
    TagError,
    /// The dependency-refresh hook failed after the manifest was already
    /// rewritten.
    HookFailure,
}

} // verus!
