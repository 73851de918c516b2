use vstd::prelude::*;
use vstd::string::*;

use crate::errors::OpError;
use crate::manifest::CargoToml;
use crate::version::{Version, spec_render};

verus! {

/// Caller intent: report the current version, or bump one component and
/// record the change.
#[derive(Clone, Copy, Debug, PartialEq, Eq, Structural)]
pub enum Command {
    /// Print the manifest's current version; no mutation.
    Current,
    /// Bump the second component and tag.
    Minor,
    /// Bump the first component and tag.
    Major,
    /// Bump the third component and tag.
    Patch,
}

/// Arguments of one run: the command, an optional prefix for the emitted
/// and tagged string, and whether identity comes from the environment
/// rather than from the configuration.
pub struct TagArgs {
    pub command: Command,
    pub prefix: Option<String>,
    pub env: bool,
}

/// The whole invocation.
pub enum Cli {
    Tag(TagArgs),
}

/// The version that `cmd` turns `v` into: the chosen component rises by
/// one and every lower component resets to zero.
pub open spec fn spec_bump(cmd: Command, v: Version) -> Version
    recommends
        cmd != Command::Current,
{
    match cmd {
        Command::Major => Version { major: (v.major + 1) as u64, minor: 0, patch: 0 },
        Command::Minor => Version { major: v.major, minor: (v.minor + 1) as u64, patch: 0 },
        _ => Version { major: v.major, minor: v.minor, patch: (v.patch + 1) as u64 },
    }
}

/// The chosen component of `v` can rise without overflowing.
pub open spec fn bump_fits(cmd: Command, v: Version) -> bool {
    match cmd {
        Command::Major => v.major < u64::MAX,
        Command::Minor => v.minor < u64::MAX,
        Command::Patch => v.patch < u64::MAX,
        Command::Current => true,
    }
}

/// The fixed opening of the commit message.
pub open spec fn commit_message_text() -> Seq<char> {
    "chore: bump version to "@
}

/// The fixed tag message.
pub open spec fn tag_message_text() -> Seq<char> {
    "chore: bump version to {}"@
}

/// Everything a bump run emits: the rewritten manifest text, the bumped
/// version, the `{prefix}{version}` string that is printed and used
/// verbatim as the tag name, and the two messages.
pub struct BumpPlan {
    pub new_manifest: String,
    pub new_version: Version,
    pub version_str: String,
    pub commit_message: String,
    pub tag_message: String,
}

/// `p` is the one correct plan for manifest `m`, command `cmd` and
/// prefix `prefix`: the version is bumped exactly, the manifest text is
/// rewritten only between the value's quotes, and the emitted strings
/// are built verbatim.
pub open spec fn plan_matches(p: BumpPlan, m: CargoToml, cmd: Command, prefix: Seq<char>) -> bool {
    &&& p.new_version == spec_bump(cmd, m.version)
    &&& p.new_manifest@ == m.text@.subrange(0, m.vstart as int) + spec_render(p.new_version)
        + m.text@.subrange(m.vend as int, m.text@.len() as int)
    &&& p.version_str@ == prefix + spec_render(p.new_version)
    &&& p.commit_message@ == commit_message_text() + p.version_str@
    &&& p.tag_message@ == tag_message_text()
}

/// Decide a bump run from the open manifest; nothing is performed here.
/// Overflow of the chosen component is the one failure.
pub fn plan_bump(m: &CargoToml, cmd: Command, prefix: &str) -> (r: Result<BumpPlan, OpError>)
    requires
        m.wf(),
        cmd != Command::Current,
    ensures
        r matches Ok(p) ==> bump_fits(cmd, m.version) && plan_matches(p, *m, cmd, prefix@),
        r matches Err(e) ==> e == OpError::VersionOverflow && !bump_fits(cmd, m.version),
{
    let mut v = m.current_version();
    match cmd {
        Command::Major => {
            if v.major == u64::MAX {
                return Err(OpError::VersionOverflow);
            }
            v.bump_major();
        },
        Command::Minor => {
            if v.minor == u64::MAX {
                return Err(OpError::VersionOverflow);
            }
            v.bump_minor();
        },
        Command::Patch => {
            if v.patch == u64::MAX {
                return Err(OpError::VersionOverflow);
            }
            v.bump_patch();
        },
        Command::Current => {
            proof {
                assert(false);
            }
            return Err(OpError::VersionOverflow);
        },
    }
    let new_manifest = m.write_version(&v);
    let rendered = v.render();
    let mut version_str = prefix.to_owned();
    version_str.append(rendered.as_str());
    let mut commit_message = "chore: bump version to ".to_owned();
    commit_message.append(version_str.as_str());
    let tag_message = "chore: bump version to {}".to_owned();
    Ok(
        BumpPlan {
            new_manifest,
            new_version: v,
            version_str,
            commit_message,
            tag_message,
        },
    )
}

/// What one run does once the manifest is open: the string to report, or
/// the full bump plan to perform.
pub enum Action {
    Report(String),
    Bump(BumpPlan),
}

/// Resolve caller intent against the open manifest. `Current` reports
/// the version field exactly as the manifest spells it, with no mutation
/// and no repository interaction; a bump command yields its plan.
pub fn decide(m: &CargoToml, cmd: Command, prefix: &str) -> (r: Result<Action, OpError>)
    requires
        m.wf(),
    ensures
        cmd == Command::Current ==> (r matches Ok(a) && a matches Action::Report(s) && s@
            == m.field()),
        cmd != Command::Current ==> match r {
            Ok(a) => a matches Action::Bump(p) && bump_fits(cmd, m.version) && plan_matches(
                p,
                *m,
                cmd,
                prefix@,
            ),
            Err(e) => e == OpError::VersionOverflow && !bump_fits(cmd, m.version),
        },
{
    match cmd {
        Command::Current => Ok(Action::Report(m.version_field_text())),
        _ => {
            match plan_bump(m, cmd, prefix) {
                Ok(p) => Ok(Action::Bump(p)),
                Err(e) => Err(e),
            }
        },
    }
}

} // verus!
