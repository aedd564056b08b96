//! The records that the scanners and parsers produce.
use crate::text::views;
use vstd::prelude::*;

verus! {

/// `semver::VersionReq`, a parsed version requirement. The library carries it
/// and never looks inside.
#[verifier::external_type_specification]
#[verifier::external_body]
pub struct ExVersionReq(semver::VersionReq);

/// One requirement that a manifest declares.
#[derive(Debug, Clone, Eq, PartialEq, Hash)]
pub struct PackageRequirement {
    pub name: String,
    pub version_req: Option<semver::VersionReq>,
    pub extras: Vec<String>,
    pub marker: Option<String>,
}

/// A requirement as text.
pub struct PackageRequirementView {
    pub name: Seq<char>,
    pub version_req: Option<semver::VersionReq>,
    pub extras: Seq<Seq<char>>,
    pub marker: Option<Seq<char>>,
}

/// The text of an optional string.
pub open spec fn option_view(s: Option<String>) -> Option<Seq<char>> {
    match s {
        Some(t) => Some(t@),
        None => None,
    }
}

impl View for PackageRequirement {
    type V = PackageRequirementView;

    open spec fn view(&self) -> PackageRequirementView {
        PackageRequirementView {
            name: self.name@,
            version_req: self.version_req,
            extras: views(self.extras@),
            marker: option_view(self.marker),
        }
    }
}

/// The format of a manifest.
#[derive(Debug, Clone, Copy, PartialEq, Eq, Structural)]
pub enum DependencyFileKind {
    RequirementsTxt,
    RequirementsIn,
    SetupPy,
    PyprojectToml,
    Poetry,
    Pipfile,
}

/// A manifest and the requirements that it declares, in the order in which
/// they were found.
#[derive(Debug)]
pub struct DependencyFile {
    pub path: String,
    pub kind: DependencyFileKind,
    pub dependencies: Vec<PackageRequirement>,
}

/// A manifest as text.
pub struct DependencyFileView {
    pub path: Seq<char>,
    pub kind: DependencyFileKind,
    pub dependencies: Seq<PackageRequirementView>,
}

impl View for DependencyFile {
    type V = DependencyFileView;

    open spec fn view(&self) -> DependencyFileView {
        DependencyFileView {
            path: self.path@,
            kind: self.kind,
            dependencies: views(self.dependencies@),
        }
    }
}

/// One import statement of a source file.
#[derive(Debug)]
pub struct ImportInfo {
    pub package_name: String,
    pub dotted_path: Vec<String>,
    pub is_from_import: bool,
    pub imported_names: Vec<String>,
}

/// An import record as text.
pub struct ImportInfoView {
    pub package_name: Seq<char>,
    pub dotted_path: Seq<Seq<char>>,
    pub is_from_import: bool,
    pub imported_names: Seq<Seq<char>>,
}

impl View for ImportInfo {
    type V = ImportInfoView;

    open spec fn view(&self) -> ImportInfoView {
        ImportInfoView {
            package_name: self.package_name@,
            dotted_path: views(self.dotted_path@),
            is_from_import: self.is_from_import,
            imported_names: views(self.imported_names@),
        }
    }
}

/// A file of a directory listing: its path and, where it was read, its text.
#[derive(Debug, Clone)]
pub struct ScannedFile {
    pub path: String,
    pub content: Option<String>,
}

/// A directory and the files found in it and below it.
#[derive(Debug, Clone)]
pub struct DirectoryListing {
    pub dir: String,
    pub files: Vec<ScannedFile>,
}

} // verus!
