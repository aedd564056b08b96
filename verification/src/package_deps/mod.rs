//! The two indices that tie manifests to source files: which files import
//! which package, and which manifest declares which requirements.
pub mod dep_parser;
pub mod import_parser;
pub mod models;
pub mod requirement;
pub mod toml_value;

use crate::collections::{
    lemma_relation_add, relates, relation_add, PathRelation, PathSet, StringMap,
};
use crate::package_deps::dep_parser::{file_kind, manifest_requirements, DependencyParser};
use crate::package_deps::import_parser::{scan_imports, ImportParser};
use crate::package_deps::models::{
    option_view, DependencyFile, DependencyFileView, ImportInfo, ImportInfoView,
    PackageRequirementView, ScannedFile,
};
use crate::package_deps::toml_value::toml_document;
use crate::paths::{file_name, is_named, is_python_path};
use crate::text::views;
use vstd::prelude::*;

verus! {

/// Whether the file name of `path` is one of the manifest names.
pub open spec fn is_manifest_name(path: Seq<char>) -> bool {
    let name = file_name(path);
    ||| name == Some("requirements.txt"@)
    ||| name == Some("requirements.in"@)
    ||| name == Some("setup.py"@)
    ||| name == Some("pyproject.toml"@)
    ||| name == Some("Pipfile"@)
}

/// What the indices hold.
pub struct IndexView {
    /// Under each package name the files that import it.
    pub usages: Map<Seq<char>, Set<Seq<char>>>,
    /// Under each manifest's path what it declares.
    pub manifests: Map<Seq<char>, DependencyFileView>,
    /// Under each source file's path its import records.
    pub imports: Map<Seq<char>, Seq<ImportInfoView>>,
}

/// Indices that hold nothing.
pub open spec fn empty_index() -> IndexView {
    IndexView { usages: Map::empty(), manifests: Map::empty(), imports: Map::empty() }
}

/// The top-level package of each import record.
pub open spec fn package_names(imports: Seq<ImportInfoView>) -> Seq<Seq<char>> {
    Seq::new(imports.len(), |i: int| imports[i].package_name)
}

/// `usages` with `path` added under each of `names`.
pub open spec fn add_usages(
    usages: Map<Seq<char>, Set<Seq<char>>>,
    names: Seq<Seq<char>>,
    path: Seq<char>,
) -> Map<Seq<char>, Set<Seq<char>>>
    decreases names.len(),
{
    if names.len() == 0 {
        usages
    } else {
        relation_add(add_usages(usages, names.drop_last(), path), names.last(), path)
    }
}

/// The indices after the source file at `path` with the text `content` was
/// scanned: the file stands under every package it imports, and its import
/// records replace those kept for the path.
pub open spec fn with_source(index: IndexView, path: Seq<char>, content: Seq<char>) -> IndexView {
    let imports = scan_imports(content);
    IndexView {
        usages: add_usages(index.usages, package_names(imports), path),
        manifests: index.manifests,
        imports: index.imports.insert(path, imports),
    }
}

/// What the manifest at `path` with the text `content` declares.
pub open spec fn manifest_of(path: Seq<char>, content: Seq<char>) -> DependencyFileView {
    let kind = file_kind(path, content);
    DependencyFileView {
        path,
        kind,
        dependencies: manifest_requirements(kind, content, toml_document(content)),
    }
}

/// The indices after the manifest at `path` with the text `content` was
/// read: it replaces what was kept for the path.
pub open spec fn with_manifest(index: IndexView, path: Seq<char>, content: Seq<char>) -> IndexView {
    IndexView {
        usages: index.usages,
        manifests: index.manifests.insert(path, manifest_of(path, content)),
        imports: index.imports,
    }
}

/// The indices after one file of a listing was visited. A manifest is read,
/// a Python source file is scanned, any other file and any file without text
/// is passed over.
pub open spec fn with_file(index: IndexView, path: Seq<char>, content: Option<Seq<char>>) -> IndexView {
    match content {
        Some(text) => if is_manifest_name(path) {
            with_manifest(index, path, text)
        } else if is_python_path(path) {
            with_source(index, path, text)
        } else {
            index
        },
        None => index,
    }
}

/// The indices after the files of a listing were visited in order.
pub open spec fn with_files(index: IndexView, files: Seq<ScannedFile>) -> IndexView
    decreases files.len(),
{
    if files.len() == 0 {
        index
    } else {
        with_file(
            with_files(index, files.drop_last()),
            files.last().path@,
            option_view(files.last().content),
        )
    }
}

/// The files that import a package named by one of the first `n`
/// requirements.
pub open spec fn users_of(
    usages: Map<Seq<char>, Set<Seq<char>>>,
    requirements: Seq<PackageRequirementView>,
    n: int,
) -> Set<Seq<char>> {
    Set::new(
        |file: Seq<char>|
            exists|i: int| 0 <= i < n && #[trigger] relates(usages, requirements[i].name, file),
    )
}

/// The files that a change of the manifest at `changed` affects: those that
/// import a package that the manifest declares. A path that is no known
/// manifest affects none.
pub open spec fn affected_by_manifest(index: IndexView, changed: Seq<char>) -> Set<Seq<char>> {
    if index.manifests.contains_key(changed) {
        let requirements = index.manifests[changed].dependencies;
        users_of(index.usages, requirements, requirements.len() as int)
    } else {
        Set::empty()
    }
}

/// After a source file was entered under the packages it imports, it stands
/// under each of them, and the index holds nothing else that it did not hold
/// before.
pub proof fn lemma_add_usages(
    usages: Map<Seq<char>, Set<Seq<char>>>,
    names: Seq<Seq<char>>,
    path: Seq<char>,
)
    ensures
        forall|name: Seq<char>, file: Seq<char>| #[trigger]
            relates(add_usages(usages, names, path), name, file) <==> relates(usages, name, file)
                || (names.contains(name) && file == path),
    decreases names.len(),
{
    if names.len() > 0 {
        let before = names.drop_last();
        lemma_add_usages(usages, before, path);
        lemma_relation_add(add_usages(usages, before, path), names.last(), path);
        assert forall|name: Seq<char>| names.contains(name) <==> before.contains(name) || name
            == names.last() by {
            if before.contains(name) {
                let i = before.index_of(name);
                assert(names[i] == name);
            }
            if names.contains(name) {
                let i = names.index_of(name);
                if i < before.len() {
                    assert(before[i] == name);
                }
            }
        }
    }
}

/// A manifest that is read again replaces what was kept for it: the
/// registry holds what the last reading gave, and nothing of the one before.
pub proof fn lemma_manifest_read_again(
    index: IndexView,
    path: Seq<char>,
    first: Seq<char>,
    second: Seq<char>,
)
    ensures
        with_manifest(with_manifest(index, path, first), path, second) == with_manifest(
            index,
            path,
            second,
        ),
{
    assert(index.manifests.insert(path, manifest_of(path, first)).insert(
        path,
        manifest_of(path, second),
    ) =~= index.manifests.insert(path, manifest_of(path, second)));
}

/// The package usage index and the manifest registry.
#[derive(Debug)]
pub struct PackageDependencyManager {
    // Under each package name the files that import it
    package_usages: PathRelation,
    // Under each manifest's path its parsed contents
    dependency_files: StringMap<DependencyFile>,
    // Under each source file's path its import records
    import_cache: StringMap<Vec<ImportInfo>>,
}

impl View for PackageDependencyManager {
    type V = IndexView;

    closed spec fn view(&self) -> IndexView {
        IndexView {
            usages: self.package_usages@,
            manifests: self.dependency_files@.map_values(|f: DependencyFile| f@),
            imports: self.import_cache@.map_values(|v: Vec<ImportInfo>| views(v@)),
        }
    }
}

impl Default for PackageDependencyManager {
    fn default() -> (r: Self)
        ensures
            r.wf(),
            r@ == empty_index(),
    {
        Self::new()
    }
}

impl PackageDependencyManager {
    /// No index holds a key twice.
    pub closed spec fn wf(&self) -> bool {
        &&& self.package_usages.wf()
        &&& self.dependency_files.wf()
        &&& self.import_cache.wf()
    }

    /// Indices that hold nothing.
    pub fn new() -> (r: Self)
        ensures
            r.wf(),
            r@ == empty_index(),
    {
        let r = Self {
            package_usages: PathRelation::new(),
            dependency_files: StringMap::new(),
            import_cache: StringMap::new(),
        };
        proof {
            assert(r@.manifests =~= Map::<Seq<char>, DependencyFileView>::empty());
            assert(r@.imports =~= Map::<Seq<char>, Seq<ImportInfoView>>::empty());
        }
        r
    }

    /// Visits the files of a directory listing in order: reads each manifest
    /// and scans each Python source file whose text is given.
    pub fn scan_directory(&mut self, files: &Vec<ScannedFile>)
        requires
            old(self).wf(),
        ensures
            final(self).wf(),
            final(self)@ == with_files(old(self)@, files@),
    {
        let mut i: usize = 0;
        while i < files.len()
            invariant
                i <= files.len(),
                self.wf(),
                self@ == with_files(old(self)@, files@.take(i as int)),
            decreases files.len() - i,
        {
            proof {
                assert(files@.take(i + 1).drop_last() == files@.take(i as int));
            }
            let file = &files[i];
            match &file.content {
                Some(content) => {
                    if self.is_dependency_file(file.path.as_str()) {
                        self.scan_dependency_file(file.path.as_str(), content.as_str());
                    } else if self.is_python_file(file.path.as_str()) {
                        self.scan_python_file(file.path.as_str(), content.as_str());
                    }
                },
                None => {},
            }
            i += 1;
        }
        proof {
            assert(files@.take(files.len() as int) == files@);
        }
    }

    /// Reads the manifest at `path` and keeps what it declares, in place of
    /// what was kept for the path.
    pub fn scan_dependency_file(&mut self, path: &str, content: &str)
        requires
            old(self).wf(),
        ensures
            final(self).wf(),
            final(self)@ == with_manifest(old(self)@, path@, content@),
    {
        let file = DependencyParser::parse_file(path, content);
        self.dependency_files.insert(path.to_owned(), file);
        proof {
            assert(self@.manifests =~= old(self)@.manifests.insert(path@, file@));
        }
    }

    /// Scans the source file at `path` and enters it under every package
    /// that it imports.
    pub fn scan_python_file(&mut self, path: &str, content: &str)
        requires
            old(self).wf(),
        ensures
            final(self).wf(),
            final(self)@ == with_source(old(self)@, path@, content@),
    {
        let mut parser = ImportParser::new(content.to_owned());
        let imports = parser.parse_imports();
        let ghost names = package_names(views(imports@));
        let mut i: usize = 0;
        while i < imports.len()
            invariant
                i <= imports.len(),
                self.wf(),
                names == package_names(views(imports@)),
                self.package_usages@ == add_usages(old(self)@.usages, names.take(i as int), path@),
                self.dependency_files == old(self).dependency_files,
                self.import_cache == old(self).import_cache,
            decreases imports.len() - i,
        {
            proof {
                assert(names.take(i + 1).drop_last() == names.take(i as int));
            }
            self.package_usages.add(imports[i].package_name.clone(), path.to_owned());
            i += 1;
        }
        proof {
            assert(names.take(imports.len() as int) == names);
        }
        let ghost records = views(imports@);
        self.import_cache.insert(path.to_owned(), imports);
        proof {
            assert(self@.imports =~= old(self)@.imports.insert(path@, records));
        }
    }

    /// The files that a change of the manifest at `changed_file` affects.
    pub fn get_affected_by_dependency_change(&self, changed_file: &str) -> (affected: PathSet)
        requires
            self.wf(),
        ensures
            affected.wf(),
            affected@ == affected_by_manifest(self@, changed_file@),
    {
        let mut affected = PathSet::new();
        match self.dependency_files.get(changed_file) {
            Some(file) => {
                let ghost usages = self.package_usages@;
                let ghost requirements = views(file.dependencies@);
                let mut i: usize = 0;
                while i < file.dependencies.len()
                    invariant
                        i <= file.dependencies.len(),
                        self.wf(),
                        usages == self.package_usages@,
                        requirements == views(file.dependencies@),
                        affected.wf(),
                        affected@ == users_of(usages, requirements, i as int),
                    decreases file.dependencies.len() - i,
                {
                    let ghost name = requirements[i as int].name;
                    match self.package_usages.get(file.dependencies[i].name.as_str()) {
                        Some(files) => {
                            affected.extend(files);
                        },
                        None => {},
                    }
                    proof {
                        assert forall|f: Seq<char>|
                            affected@.contains(f) <==> users_of(
                                usages,
                                requirements,
                                i + 1,
                            ).contains(f) by {
                            if relates(usages, name, f) {
                            }
                        }
                    }
                    i += 1;
                }
            },
            None => {},
        }
        affected
    }

    /// What the manifest at `path` declared when it was last read.
    pub fn dependency_file(&self, path: &str) -> (r: Option<&DependencyFile>)
        requires
            self.wf(),
        ensures
            match r {
                Some(file) => self@.manifests.contains_key(path@) && self@.manifests[path@]
                    == file@,
                None => !self@.manifests.contains_key(path@),
            },
    {
        self.dependency_files.get(path)
    }

    /// The import records of the source file at `path`, as last scanned.
    pub fn imports_of(&self, path: &str) -> (r: Option<&Vec<ImportInfo>>)
        requires
            self.wf(),
        ensures
            match r {
                Some(imports) => self@.imports.contains_key(path@) && self@.imports[path@]
                    == views(imports@),
                None => !self@.imports.contains_key(path@),
            },
    {
        self.import_cache.get(path)
    }

    /// Whether the file name of `path` is one of the manifest names.
    pub fn is_dependency_file(&self, path: &str) -> (r: bool)
        ensures
            r == is_manifest_name(path@),
    {
        is_named(path, "requirements.txt") || is_named(path, "requirements.in") || is_named(
            path,
            "setup.py",
        ) || is_named(path, "pyproject.toml") || is_named(path, "Pipfile")
    }

    /// Whether `path` names a Python source file.
    pub fn is_python_file(&self, path: &str) -> (r: bool)
        ensures
            r == is_python_path(path@),
    {
        crate::utils::is_python_file(path)
    }
}

} // verus!
