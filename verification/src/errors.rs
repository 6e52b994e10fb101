//! The error taxonomy shared by the resolver, the build-script
//! runner and the compile-job synthesizer.

use vstd::prelude::*;

verus! {

/// The structural, protocol and subprocess errors this library reports.
/// Every variant is fatal for the job that raised it; retrying is the
/// caller's business, never this library's.
#[derive(Clone, Copy, Debug, PartialEq, Eq, Structural)]
pub enum Error {
    /// A crate version string does not follow the version grammar.
    VersionParse,
    /// A manifest path has no parent directory.
    ManifestNoParent,
    /// A package exposes metadata although it declares no links token.
    MetadataWithoutLinks,
    /// A dependency exposes metadata although it declares no links token.
    DepLinksMissing,
    /// A package declares a second build-script target.
    MoreThanOneBuildScript,
    /// A build-script target has a target kind other than custom-build.
    BuildScriptWrongKind,
    /// A build-script target has a crate type other than bin.
    BuildScriptWrongType,
    /// A package declares a second plain library or proc-macro target.
    MoreThanOneLib,
    /// A package declares a second dynamic library target.
    MoreThanOneCLib,
    /// A target clashes with an already declared dynamic library.
    AlreadyCLib,
    /// A dynamic library clashes with an already declared plain library.
    AlreadyRustLib,
    /// A dynamic library clashes with an already declared executable.
    AlreadyBin,
    /// A referenced path lies outside the project root and the vendor root.
    PathOutsideRoots,
    /// A vendored path holds no leading per-package directory to strip.
    NoPrefix,
    /// A cfg line does not follow the cfg grammar.
    CfgParse,
    /// A build script emitted an error directive.
    ScriptReportedError,
    /// A tarball entry path holds a parent-directory component.
    ParentDirInArchive,
    /// A lockfile entry was expected to carry a source and a checksum.
    AlreadyFiltered,
    /// A lockfile source is not a registry source.
    RegistryPrefixMissing,
    /// A lockfile checksum is not a hexadecimal string of even length.
    ChecksumNotHex,
    /// A resolve node names a package the graph does not hold.
    UnknownPackage,
}

/// What each error says; the exact rendering of [`Error::message`].
pub open spec fn spec_message(e: Error) -> Seq<char> {
    match e {
        Error::VersionParse => "parsing crate version"@,
        Error::ManifestNoParent => "manifest has no parent dir"@,
        Error::MetadataWithoutLinks => "metadata without links"@,
        Error::DepLinksMissing => "crate must have links to use metadata"@,
        Error::MoreThanOneBuildScript => "more than one buildscript in crate"@,
        Error::BuildScriptWrongKind => "build script has wrong target kind"@,
        Error::BuildScriptWrongType => "build script has wrong crate type"@,
        Error::MoreThanOneLib => "more than one lib in crate"@,
        Error::MoreThanOneCLib => "more than one clib in crate"@,
        Error::AlreadyCLib => "already clib"@,
        Error::AlreadyRustLib => "already rust lib"@,
        Error::AlreadyBin => "already bin"@,
        Error::PathOutsideRoots => "path is not part of project or vendor dir"@,
        Error::NoPrefix => "no prefix"@,
        Error::CfgParse => "unable to parse cfg"@,
        Error::ScriptReportedError => "build script reported error"@,
        Error::ParentDirInArchive => "parent dir in tarball is not allowed due to security concerns"@,
        Error::AlreadyFiltered => "already filtered"@,
        Error::RegistryPrefixMissing => "registry regex didn't match"@,
        Error::ChecksumNotHex => "decoding checksum"@,
        Error::UnknownPackage => "getting package for resolve node"@,
    }
}

impl Error {
    /// The human-readable description of this error.
    pub fn message(&self) -> (r: String)
        ensures
            r@ == spec_message(*self),
    {
        match self {
            Error::VersionParse => "parsing crate version".to_owned(),
            Error::ManifestNoParent => "manifest has no parent dir".to_owned(),
            Error::MetadataWithoutLinks => "metadata without links".to_owned(),
            Error::DepLinksMissing => "crate must have links to use metadata".to_owned(),
            Error::MoreThanOneBuildScript => "more than one buildscript in crate".to_owned(),
            Error::BuildScriptWrongKind => "build script has wrong target kind".to_owned(),
            Error::BuildScriptWrongType => "build script has wrong crate type".to_owned(),
            Error::MoreThanOneLib => "more than one lib in crate".to_owned(),
            Error::MoreThanOneCLib => "more than one clib in crate".to_owned(),
            Error::AlreadyCLib => "already clib".to_owned(),
            Error::AlreadyRustLib => "already rust lib".to_owned(),
            Error::AlreadyBin => "already bin".to_owned(),
            Error::PathOutsideRoots => "path is not part of project or vendor dir".to_owned(),
            Error::NoPrefix => "no prefix".to_owned(),
            Error::CfgParse => "unable to parse cfg".to_owned(),
            Error::ScriptReportedError => "build script reported error".to_owned(),
            Error::ParentDirInArchive => "parent dir in tarball is not allowed due to security concerns"
                .to_owned(),
            Error::AlreadyFiltered => "already filtered".to_owned(),
            Error::RegistryPrefixMissing => "registry regex didn't match".to_owned(),
            Error::ChecksumNotHex => "decoding checksum".to_owned(),
            Error::UnknownPackage => "getting package for resolve node".to_owned(),
        }
    }
}

} // verus!
