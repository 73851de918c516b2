use vstd::prelude::*;
use vstd::string::*;

use crate::errors::OpError;

verus! {

// The session works over git2's handles; each is opaque here and carried
// through the trusted wrappers below.

#[verifier::external_type_specification]
#[verifier::external_body]
pub struct ExRepository(git2::Repository);

#[verifier::external_type_specification]
#[verifier::external_body]
pub struct ExGit2Error(git2::Error);

#[verifier::external_type_specification]
#[verifier::external_body]
pub struct ExSignature<'a>(git2::Signature<'a>);

#[verifier::external_type_specification]
#[verifier::external_body]
pub struct ExReference<'repo>(git2::Reference<'repo>);

#[verifier::external_type_specification]
#[verifier::external_body]
pub struct ExCommit<'repo>(git2::Commit<'repo>);

#[verifier::external_type_specification]
#[verifier::external_body]
pub struct ExObject<'repo>(git2::Object<'repo>);

#[verifier::external_type_specification]
#[verifier::external_body]
pub struct ExTree<'repo>(git2::Tree<'repo>);

#[verifier::external_type_specification]
#[verifier::external_body]
pub struct ExIndex(git2::Index);

#[verifier::external_type_specification]
#[verifier::external_body]
pub struct ExOid(git2::Oid);

#[verifier::external_type_specification]
#[verifier::external_body]
pub struct ExConfig(git2::Config);

/// Relies on git2's Repository::open: opens the repository at the
/// process's working directory, failing when it is not inside one.
#[verifier::external_body]
fn repo_open_cwd() -> Result<git2::Repository, git2::Error> {
    git2::Repository::open(".")
}

/// Relies on git2's Config::open_default: opens the global configuration.
#[verifier::external_body]
fn config_open_default() -> Result<git2::Config, git2::Error> {
    git2::Config::open_default()
}

/// Relies on git2's Config::get_string: the value of the named key, an
/// error when the key is absent or its value is not text.
#[verifier::external_body]
fn config_get_string(cfg: &git2::Config, name: &str) -> Result<String, git2::Error> {
    cfg.get_string(name)
}

/// Relies on git2's Signature::now: an identity from the given name and
/// email stamped with the current time.
#[verifier::external_body]
fn signature_now<'a>(name: &str, email: &str) -> Result<git2::Signature<'a>, git2::Error> {
    git2::Signature::now(name, email)
}

/// Relies on git2's Repository::head: the reference the repository's
/// head points at; an error on an unborn branch.
#[verifier::external_body]
fn repo_head<'r>(repo: &'r git2::Repository) -> Result<git2::Reference<'r>, git2::Error> {
    repo.head()
}

/// Relies on git2's Reference::peel_to_commit: the commit the reference
/// resolves to.
#[verifier::external_body]
fn reference_peel_to_commit<'r>(r: &git2::Reference<'r>) -> Result<
    git2::Commit<'r>,
    git2::Error,
> {
    r.peel_to_commit()
}

/// Relies on git2's Commit::as_object: the same commit seen as an object.
#[verifier::external_body]
fn commit_as_object<'a, 'r>(c: &'a git2::Commit<'r>) -> &'a git2::Object<'r> {
    c.as_object()
}

/// Relies on git2's Repository::index: the repository's index file.
#[verifier::external_body]
fn repo_index(repo: &git2::Repository) -> Result<git2::Index, git2::Error> {
    repo.index()
}

/// Relies on git2's Index::add_all with the match-everything pathspec:
/// stages every path under the working directory, a full re-add rather
/// than a diff.
#[verifier::external_body]
fn index_add_all(idx: &mut git2::Index) -> Result<(), git2::Error> {
    idx.add_all(["*"].iter(), git2::IndexAddOption::DEFAULT, None)
}

/// Relies on git2's Index::write: persists the staged index to disk.
#[verifier::external_body]
fn index_write(idx: &mut git2::Index) -> Result<(), git2::Error> {
    idx.write()
}

/// Relies on git2's Index::write_tree: writes the staged state as a tree
/// and returns its id.
#[verifier::external_body]
fn index_write_tree(idx: &mut git2::Index) -> Result<git2::Oid, git2::Error> {
    idx.write_tree()
}

/// Relies on git2's Repository::find_tree: the tree object of the given
/// id.
#[verifier::external_body]
fn repo_find_tree<'r>(repo: &'r git2::Repository, id: git2::Oid) -> Result<
    git2::Tree<'r>,
    git2::Error,
> {
    repo.find_tree(id)
}

/// Relies on git2's Repository::commit: writes a commit with the given
/// tree, message and single parent, the one identity as both author and
/// committer, and moves the given reference to it.
#[verifier::external_body]
fn repo_commit(
    repo: &git2::Repository,
    update_ref: &str,
    sig: &git2::Signature<'_>,
    message: &str,
    tree: &git2::Tree<'_>,
    parent: &git2::Commit<'_>,
) -> Result<git2::Oid, git2::Error> {
    repo.commit(Some(update_ref), sig, sig, message, tree, &[parent])
}

/// Relies on git2's Repository::tag with force off: creates an annotated
/// tag of the given name on the object, failing rather than overwriting
/// an existing tag of that name.
#[verifier::external_body]
fn repo_tag(
    repo: &git2::Repository,
    name: &str,
    target: &git2::Object<'_>,
    tagger: &git2::Signature<'_>,
    message: &str,
) -> Result<git2::Oid, git2::Error> {
    repo.tag(name, target, tagger, message, false)
}

/// Relies on git2's Error::code: tells the "already exists" failure
/// class apart, as tag creation reports it for a duplicate name.
#[verifier::external_body]
fn error_is_exists(e: &git2::Error) -> bool {
    matches!(e.code(), git2::ErrorCode::Exists)
}

/// The full reference name of the bound branch.
fn branch_ref(branch: &str) -> (r: String)
    ensures
        r@ == "refs/heads/"@ + branch@,
{
    let mut s = "refs/heads/".to_owned();
    s.append(branch);
    s
}

/// A bound session over one repository, one target branch, and one
/// committer identity; the identity is fixed for the session's lifetime
/// and used identically for the commit and the tag.
pub struct Git {
    pub email: String,
    pub name: String,
    pub branch: String,
    pub repo: git2::Repository,
}

impl Git {
    /// Open the repository at the working directory and bind the session
    /// to the given branch and identity.
    pub fn open(branch: &str, email: &str, name: &str) -> (r: Result<Git, OpError>)
        ensures
            r matches Ok(g) ==> g.email@ == email@ && g.name@ == name@ && g.branch@ == branch@,
            r matches Err(e) ==> e == OpError::RepositoryNotFound,
    {
        match repo_open_cwd() {
            Ok(repo) => Ok(
                Git {
                    email: email.to_owned(),
                    name: name.to_owned(),
                    branch: branch.to_owned(),
                    repo,
                },
            ),
            Err(_) => Err(OpError::RepositoryNotFound),
        }
    }

    /// Bind a session from identity values read out of the environment;
    /// either value absent is refused before the repository is touched.
    pub fn from_env(branch: &str, email: Option<String>, name: Option<String>) -> (r: Result<
        Git,
        OpError,
    >)
        ensures
            email is None || name is None ==> (r matches Err(e) && e
                == OpError::MissingIdentityEnv),
            (email is Some && name is Some) ==> match r {
                Ok(g) => g.email@ == email->Some_0@ && g.name@ == name->Some_0@ && g.branch@
                    == branch@,
                Err(e) => e == OpError::RepositoryNotFound,
            },
    {
        match (email, name) {
            (Some(em), Some(nm)) => Git::open(branch, em.as_str(), nm.as_str()),
            _ => Err(OpError::MissingIdentityEnv),
        }
    }

    /// Bind a session with the identity taken from the global
    /// configuration's user name and email keys; either key absent is
    /// refused.
    pub fn from_git_config(branch: &str) -> (r: Result<Git, OpError>)
        ensures
            r matches Ok(g) ==> g.branch@ == branch@,
            r matches Err(e) ==> e == OpError::MissingIdentityConfig || e
                == OpError::RepositoryNotFound,
    {
        let cfg = match config_open_default() {
            Ok(c) => c,
            Err(_) => {
                return Err(OpError::MissingIdentityConfig);
            },
        };
        let em = match config_get_string(&cfg, "user.email") {
            Ok(s) => s,
            Err(_) => {
                return Err(OpError::MissingIdentityConfig);
            },
        };
        let nm = match config_get_string(&cfg, "user.name") {
            Ok(s) => s,
            Err(_) => {
                return Err(OpError::MissingIdentityConfig);
            },
        };
        Git::open(branch, em.as_str(), nm.as_str())
    }

    /// Build a tree from a full re-add of every working-directory path,
    /// then create a commit on the bound branch whose sole parent is the
    /// branch's current head, with the session identity as author and
    /// committer; every failure on the way is a `CommitError`.
    pub fn commit(&self, message: &str) -> (r: Result<(), OpError>)
        ensures
            r matches Err(e) ==> e == OpError::CommitError,
    {
        let sig = match signature_now(self.name.as_str(), self.email.as_str()) {
            Ok(s) => s,
            Err(_) => {
                return Err(OpError::CommitError);
            },
        };
        let head_ref = match repo_head(&self.repo) {
            Ok(h) => h,
            Err(_) => {
                return Err(OpError::CommitError);
            },
        };
        let head = match reference_peel_to_commit(&head_ref) {
            Ok(h) => h,
            Err(_) => {
                return Err(OpError::CommitError);
            },
        };
        let mut index = match repo_index(&self.repo) {
            Ok(i) => i,
            Err(_) => {
                return Err(OpError::CommitError);
            },
        };
        match index_add_all(&mut index) {
            Ok(u) => u,
            Err(_) => {
                return Err(OpError::CommitError);
            },
        }
        match index_write(&mut index) {
            Ok(u) => u,
            Err(_) => {
                return Err(OpError::CommitError);
            },
        }
        let tree_id = match index_write_tree(&mut index) {
            Ok(t) => t,
            Err(_) => {
                return Err(OpError::CommitError);
            },
        };
        let tree = match repo_find_tree(&self.repo, tree_id) {
            Ok(t) => t,
            Err(_) => {
                return Err(OpError::CommitError);
            },
        };
        let refname = branch_ref(self.branch.as_str());
        match repo_commit(&self.repo, refname.as_str(), &sig, message, &tree, &head) {
            Ok(_) => Ok(()),
            Err(_) => Err(OpError::CommitError),
        }
    }

    /// Create an annotated tag of the given name on the head commit of
    /// the repository, with the session identity as tagger. A duplicate
    /// name is `TagAlreadyExists`; nothing is overwritten, and a commit
    /// already made stays.
    pub fn tag(&self, version_str: &str, message: &str) -> (r: Result<(), OpError>)
        ensures
            r matches Err(e) ==> e == OpError::TagAlreadyExists || e == OpError::TagError,
    {
        let tagger = match signature_now(self.name.as_str(), self.email.as_str()) {
            Ok(s) => s,
            Err(_) => {
                return Err(OpError::TagError);
            },
        };
        let head_ref = match repo_head(&self.repo) {
            Ok(h) => h,
            Err(_) => {
                return Err(OpError::TagError);
            },
        };
        let head = match reference_peel_to_commit(&head_ref) {
            Ok(h) => h,
            Err(_) => {
                return Err(OpError::TagError);
            },
        };
        let obj = commit_as_object(&head);
        match repo_tag(&self.repo, version_str, obj, &tagger, message) {
            Ok(_) => Ok(()),
            Err(e) => {
                if error_is_exists(&e) {
                    Err(OpError::TagAlreadyExists)
                } else {
                    Err(OpError::TagError)
                }
            },
        }
    }
}

} // verus!
