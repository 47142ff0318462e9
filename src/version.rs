use vstd::prelude::*;
use crate::registry::{Registry, RegistryMap};

verus! {

/// Identifier of the version-control tag fact.
pub const TAG: &'static str = "TAG";

/// Name of the emitted long version constant.
pub const BUILD_CONST_VERSION: &'static str = "VERSION";

/// Name of the emitted command-line long version constant.
pub const BUILD_CONST_CLAP_LONG_VERSION: &'static str = "CLAP_LONG_VERSION";

/// Version definitions built from the branch and commit.
pub const VERSION_BRANCH_FN: &'static str = r##"/// A long version string describing the project.
/// The version string contains the package version, branch, commit hash, build time, and build environment on separate lines.
/// This constant is suitable for printing to the user.
#[allow(dead_code)]
pub const VERSION:&str = shadow_rs::formatcp!(r#"
pkg_version:{}
branch:{}
commit_hash:{}
build_time:{}
build_env:{},{}"#,PKG_VERSION, BRANCH, SHORT_COMMIT, BUILD_TIME, RUST_VERSION, RUST_CHANNEL
);"##;

pub const CLAP_LONG_VERSION_BRANCH_FN: &'static str = r##"/// A long version string describing the project.
/// The version string contains the package version, branch, commit hash, build time, and build environment on separate lines.
/// This constant is intended to be used by clap or other CLI tools as a long version string.
#[allow(dead_code)]
pub const CLAP_LONG_VERSION:&str = shadow_rs::formatcp!(r#"{}
branch:{}
commit_hash:{}
build_time:{}
build_env:{},{}"#,PKG_VERSION, BRANCH, SHORT_COMMIT, BUILD_TIME, RUST_VERSION, RUST_CHANNEL
);"##;

/// Version definitions built from the tag.
pub const VERSION_TAG_FN: &'static str = r##"/// A long version string describing the project.
/// The version string contains the package version, current Git tag, commit hash, build time, and build environment on separate lines.
/// This constant is suitable for printing to the user.
#[allow(dead_code)]
pub const VERSION:&str = shadow_rs::formatcp!(r#"
pkg_version:{}
tag:{}
commit_hash:{}
build_time:{}
build_env:{},{}"#,PKG_VERSION, TAG, SHORT_COMMIT, BUILD_TIME, RUST_VERSION, RUST_CHANNEL
);"##;

pub const CLAP_LONG_VERSION_TAG_FN: &'static str = r##"/// A long version string describing the project.
/// The version string contains the package version, current Git tag, commit hash, build time, and build environment on separate lines.
/// This constant is intended to be used by clap or other CLI tools as a long version string.
#[allow(dead_code)]
pub const CLAP_LONG_VERSION:&str = shadow_rs::formatcp!(r#"{}
tag:{}
commit_hash:{}
build_time:{}
build_env:{},{}"#,PKG_VERSION, TAG, SHORT_COMMIT, BUILD_TIME, RUST_VERSION, RUST_CHANNEL
);"##;

/// Which pair of version definitions is emitted.
#[derive(Clone, Copy, Debug, PartialEq, Eq, Structural)]
pub enum VersionKind {
    /// Built from branch name and short commit.
    Branch,
    /// Built from the tag.
    Tag,
}

/// The tag-based pair is chosen exactly when the tag fact is present and non-empty.
pub open spec fn version_kind(m: RegistryMap) -> VersionKind {
    if m.contains_key(TAG@) && m[TAG@].v@.len() > 0 {
        VersionKind::Tag
    } else {
        VersionKind::Branch
    }
}

/// Chooses the version definitions for a registry.
pub fn resolve(reg: &Registry) -> (r: VersionKind)
    requires
        reg.wf(),
    ensures
        r == version_kind(reg@),
{
    let tag = String::from_str(TAG);
    match reg.get(&tag) {
        None => VersionKind::Branch,
        Some(v) => {
            if v.v.as_str().unicode_len() > 0 {
                VersionKind::Tag
            } else {
                VersionKind::Branch
            }
        },
    }
}

/// The long version definition of each kind.
pub open spec fn version_def(k: VersionKind) -> Seq<char> {
    match k {
        VersionKind::Branch => VERSION_BRANCH_FN@,
        VersionKind::Tag => VERSION_TAG_FN@,
    }
}

/// The command-line long version definition of each kind.
pub open spec fn clap_version_def(k: VersionKind) -> Seq<char> {
    match k {
        VersionKind::Branch => CLAP_LONG_VERSION_BRANCH_FN@,
        VersionKind::Tag => CLAP_LONG_VERSION_TAG_FN@,
    }
}

/// The pair of definitions of a kind: the long version, then the command-line long version.
pub fn version_defs(k: VersionKind) -> (r: (&'static str, &'static str))
    ensures
        r.0@ == version_def(k),
        r.1@ == clap_version_def(k),
{
    match k {
        VersionKind::Branch => (VERSION_BRANCH_FN, CLAP_LONG_VERSION_BRANCH_FN),
        VersionKind::Tag => (VERSION_TAG_FN, CLAP_LONG_VERSION_TAG_FN),
    }
}

/// An absent or empty tag selects the branch-based pair; a non-empty tag selects the
/// tag-based pair; no registry selects both or neither.
pub proof fn lemma_version_choice(m: RegistryMap)
    ensures
        (!m.contains_key(TAG@) || m[TAG@].v@.len() == 0) <==> version_kind(m) == VersionKind::Branch,
        (m.contains_key(TAG@) && m[TAG@].v@.len() > 0) <==> version_kind(m) == VersionKind::Tag,
        version_kind(m) == VersionKind::Branch || version_kind(m) == VersionKind::Tag,
        version_def(version_kind(m)) == VERSION_BRANCH_FN@ || version_def(version_kind(m))
            == VERSION_TAG_FN@,
{
}

} // verus!
