//! Reads the requirements that a manifest declares.
//!
//! The format goes by the file's name. A text that is not of the expected
//! format, or a line that is no requirement, gives no record and no error.
use crate::package_deps::models::{
    DependencyFile, DependencyFileKind, PackageRequirement, PackageRequirementView,
};
use crate::package_deps::requirement::{
    bare_requirement, parse_requirement, requirement_from_chars,
};
use crate::package_deps::toml_value::{lookup, parse_toml, toml_document, TomlValue};
use crate::paths::{file_name, file_name_of};
use crate::text::{
    append_chars, contains, contains_chars, find, find_chars, find_from, lines, lines_of, split,
    split_chars, strip, strip_chars, subrange, to_chars, trim, trim_chars, views, CharClass,
};
use vstd::prelude::*;

verus! {

/// Reads manifests. It holds no state.
pub struct DependencyParser;

/// The format of the manifest at `path`: by its file name, and for
/// `pyproject.toml` by whether the text holds `[tool.poetry]`. A file of any
/// other name is read as a requirements list.
pub open spec fn file_kind(path: Seq<char>, content: Seq<char>) -> DependencyFileKind {
    let name = file_name(path);
    if name == Some("requirements.in"@) {
        DependencyFileKind::RequirementsIn
    } else if name == Some("setup.py"@) {
        DependencyFileKind::SetupPy
    } else if name == Some("pyproject.toml"@) {
        if contains(content, "[tool.poetry]"@) {
            DependencyFileKind::Poetry
        } else {
            DependencyFileKind::PyprojectToml
        }
    } else if name == Some("Pipfile"@) {
        DependencyFileKind::Pipfile
    } else {
        DependencyFileKind::RequirementsTxt
    }
}

/// Whether a line of a requirements list is passed over: it is blank, a
/// comment that begins with `#`, or an option that begins with `-`.
pub open spec fn is_skipped(line: Seq<char>) -> bool {
    let t = trim(line);
    t.len() == 0 || t[0] == '#' || t[0] == '-'
}

/// The records of the lines that are requirements, in order.
pub open spec fn line_requirements(lines: Seq<Seq<char>>) -> Seq<PackageRequirementView>
    decreases lines.len(),
{
    if lines.len() == 0 {
        seq![]
    } else {
        let before = line_requirements(lines.drop_last());
        match parse_requirement(lines.last()) {
            Some(record) if !is_skipped(lines.last()) => before.push(record),
            _ => before,
        }
    }
}

/// The records of a requirements list.
pub open spec fn requirements_txt(content: Seq<char>) -> Seq<PackageRequirementView> {
    line_requirements(lines(content))
}

/// An entry of `install_requires` without the white space and the quotes
/// around it.
pub open spec fn unquoted(token: Seq<char>) -> Seq<char> {
    strip(strip(trim(token), CharClass::Is('\'')), CharClass::Is('"'))
}

/// The records of the entries that are requirements, in order.
pub open spec fn token_requirements(tokens: Seq<Seq<char>>) -> Seq<PackageRequirementView>
    decreases tokens.len(),
{
    if tokens.len() == 0 {
        seq![]
    } else {
        let before = token_requirements(tokens.drop_last());
        match parse_requirement(unquoted(tokens.last())) {
            Some(record) => before.push(record),
            None => before,
        }
    }
}

/// What stands between the first `install_requires=[` and the next `]`.
pub open spec fn install_requires(content: Seq<char>) -> Option<Seq<char>> {
    let opening = "install_requires=["@;
    match find(content, opening) {
        Some(start) => match find_from(content, seq![']'], start + opening.len()) {
            Some(end) => Some(content.subrange(start + opening.len(), end)),
            None => None,
        },
        None => None,
    }
}

/// The records of a `setup.py`: the entries of `install_requires`, split at
/// commas.
pub open spec fn setup_py_requirements(content: Seq<char>) -> Seq<PackageRequirementView> {
    match install_requires(content) {
        Some(list) => token_requirements(split(list, seq![','])),
        None => seq![],
    }
}

/// The records of the strings of an array that are requirements, in order.
pub open spec fn array_requirements(items: Seq<TomlValue>) -> Seq<PackageRequirementView>
    decreases items.len(),
{
    if items.len() == 0 {
        seq![]
    } else {
        let before = array_requirements(items.drop_last());
        match items.last().text() {
            Some(text) => match parse_requirement(text) {
                Some(record) => before.push(record),
                None => before,
            },
            None => before,
        }
    }
}

/// The requirement that pins `name` to `version`.
pub open spec fn pinned(name: Seq<char>, version: Seq<char>) -> Seq<char> {
    name + "=="@ + version
}

/// The records of the entries of a table whose value is a version string, in
/// order.
pub open spec fn table_requirements(entries: Seq<(String, TomlValue)>) -> Seq<
    PackageRequirementView,
>
    decreases entries.len(),
{
    if entries.len() == 0 {
        seq![]
    } else {
        let before = table_requirements(entries.drop_last());
        match entries.last().1.text() {
            Some(version) => match parse_requirement(pinned(entries.last().0@, version)) {
                Some(record) => before.push(record),
                None => before,
            },
            None => before,
        }
    }
}

/// The records of a `pyproject.toml`: those of `project.dependencies`, be it
/// an array of requirements or a table from names to versions.
pub open spec fn pyproject_requirements(doc: TomlValue) -> Seq<PackageRequirementView> {
    match doc.member("project"@) {
        Some(project) => match project.member("dependencies"@) {
            Some(TomlValue::Array(items)) => array_requirements(items@),
            Some(TomlValue::Table(entries)) => table_requirements(entries@),
            _ => seq![],
        },
        None => seq![],
    }
}

/// The version that an entry of a `Pipfile` gives: the value itself where it
/// is a string, its field `version` where it is a table.
pub open spec fn pinned_version(value: TomlValue) -> Option<Seq<char>> {
    match value {
        TomlValue::Text(version) => Some(version@),
        TomlValue::Table(fields) => match lookup(fields@, "version"@) {
            Some(version) => version.text(),
            None => None,
        },
        _ => None,
    }
}

/// The records of the entries of one section of a `Pipfile`, in order. An
/// entry without a version is recorded by its name alone.
pub open spec fn section_requirements(entries: Seq<(String, TomlValue)>) -> Seq<
    PackageRequirementView,
>
    decreases entries.len(),
{
    if entries.len() == 0 {
        seq![]
    } else {
        let before = section_requirements(entries.drop_last());
        let name = entries.last().0@;
        match pinned_version(entries.last().1) {
            Some(version) => match parse_requirement(pinned(name, version)) {
                Some(record) => before.push(record),
                None => before,
            },
            None => before.push(bare_requirement(name)),
        }
    }
}

/// The records of the section `key` of a `Pipfile`.
pub open spec fn pipfile_section(doc: TomlValue, key: Seq<char>) -> Seq<PackageRequirementView> {
    match doc.member(key) {
        Some(TomlValue::Table(entries)) => section_requirements(entries@),
        _ => seq![],
    }
}

/// The records of a `Pipfile`: those of `packages`, then those of
/// `dev-packages`.
pub open spec fn pipfile_requirements(doc: TomlValue) -> Seq<PackageRequirementView> {
    pipfile_section(doc, "packages"@) + pipfile_section(doc, "dev-packages"@)
}

/// The records of a manifest of the given format. `doc` is what the TOML
/// parser made of the text.
pub open spec fn manifest_requirements(
    kind: DependencyFileKind,
    content: Seq<char>,
    doc: Option<TomlValue>,
) -> Seq<PackageRequirementView> {
    match kind {
        DependencyFileKind::RequirementsTxt | DependencyFileKind::RequirementsIn => requirements_txt(
            content,
        ),
        DependencyFileKind::SetupPy => setup_py_requirements(content),
        DependencyFileKind::PyprojectToml | DependencyFileKind::Poetry => match doc {
            Some(d) => pyproject_requirements(d),
            None => seq![],
        },
        DependencyFileKind::Pipfile => match doc {
            Some(d) => pipfile_requirements(d),
            None => seq![],
        },
    }
}

fn line_is_skipped(line: &Vec<char>) -> (r: bool)
    ensures
        r == is_skipped(line@),
{
    let t = trim_chars(line);
    t.len() == 0 || t[0] == '#' || t[0] == '-'
}

fn pinned_chars(name: &String, version: &str) -> (line: Vec<char>)
    ensures
        line@ == pinned(name@, version@),
{
    let mut line = to_chars(name.as_str());
    let equals = to_chars("==");
    let version_chars = to_chars(version);
    append_chars(&mut line, &equals);
    append_chars(&mut line, &version_chars);
    line
}

fn no_requirements() -> (out: Vec<PackageRequirement>)
    ensures
        views(out@) == Seq::<PackageRequirementView>::empty(),
{
    Vec::new()
}

impl DependencyParser {
    /// The manifest at `path` with the text `content`.
    pub fn parse_file(path: &str, content: &str) -> (file: DependencyFile)
        ensures
            file.path@ == path@,
            file.kind == file_kind(path@, content@),
            views(file.dependencies@) == manifest_requirements(
                file.kind,
                content@,
                toml_document(content@),
            ),
    {
        let kind = Self::determine_file_kind(path, content);
        let dependencies = match kind {
            DependencyFileKind::RequirementsTxt | DependencyFileKind::RequirementsIn => {
                Self::parse_requirements(content)
            },
            DependencyFileKind::SetupPy => Self::parse_setup_py(content),
            DependencyFileKind::PyprojectToml | DependencyFileKind::Poetry => {
                Self::parse_pyproject_toml(content)
            },
            DependencyFileKind::Pipfile => Self::parse_pipfile(content),
        };
        DependencyFile { path: path.to_owned(), kind, dependencies }
    }

    /// The format of the manifest at `path` with the text `content`.
    pub fn determine_file_kind(path: &str, content: &str) -> (kind: DependencyFileKind)
        ensures
            kind == file_kind(path@, content@),
    {
        let name = match file_name_of(path) {
            Some(name) => name,
            None => {
                return DependencyFileKind::RequirementsTxt;
            },
        };
        let requirements_in: String = "requirements.in".to_owned();
        let setup_py: String = "setup.py".to_owned();
        let pyproject: String = "pyproject.toml".to_owned();
        let pipfile: String = "Pipfile".to_owned();
        if name == requirements_in {
            DependencyFileKind::RequirementsIn
        } else if name == setup_py {
            DependencyFileKind::SetupPy
        } else if name == pyproject {
            let chars = to_chars(content);
            let marker = to_chars("[tool.poetry]");
            if contains_chars(&chars, &marker) {
                DependencyFileKind::Poetry
            } else {
                DependencyFileKind::PyprojectToml
            }
        } else if name == pipfile {
            DependencyFileKind::Pipfile
        } else {
            DependencyFileKind::RequirementsTxt
        }
    }

    /// The records of a requirements list.
    pub fn parse_requirements(content: &str) -> (out: Vec<PackageRequirement>)
        ensures
            views(out@) == requirements_txt(content@),
    {
        let chars = to_chars(content);
        let all = lines_of(&chars);
        let mut out = no_requirements();
        let mut i: usize = 0;
        while i < all.len()
            invariant
                i <= all.len(),
                views(out@) == line_requirements(views(all@).take(i as int)),
            decreases all.len() - i,
        {
            proof {
                assert(views(all@).take(i + 1).drop_last() == views(all@).take(i as int));
            }
            if !line_is_skipped(&all[i]) {
                match requirement_from_chars(&all[i]) {
                    Some(record) => {
                        out.push(record);
                    },
                    None => {},
                }
            }
            i += 1;
        }
        proof {
            assert(views(all@).take(all.len() as int) == views(all@));
        }
        out
    }

    /// The record of one requirement line.
    pub fn parse_requirement_line(line: &str) -> (r: Option<PackageRequirement>)
        ensures
            match r {
                Some(req) => parse_requirement(line@) == Some(req@),
                None => parse_requirement(line@) is None,
            },
    {
        let chars = to_chars(line);
        requirement_from_chars(&chars)
    }

    /// The records of a `setup.py`.
    pub fn parse_setup_py(content: &str) -> (out: Vec<PackageRequirement>)
        ensures
            views(out@) == setup_py_requirements(content@),
    {
        let chars = to_chars(content);
        let opening = to_chars("install_requires=[");
        let closing: Vec<char> = vec![']'];
        let comma: Vec<char> = vec![','];
        proof {
            assert(closing@ == seq![']']);
            assert(comma@ == seq![',']);
        }
        let start = match find_chars(&chars, &opening, 0) {
            Some(start) => start,
            None => {
                return no_requirements();
            },
        };
        let end = match find_chars(&chars, &closing, start + opening.len()) {
            Some(end) => end,
            None => {
                return no_requirements();
            },
        };
        let list = subrange(&chars, start + opening.len(), end);
        let tokens = split_chars(&list, &comma);
        let mut out = no_requirements();
        let mut i: usize = 0;
        while i < tokens.len()
            invariant
                i <= tokens.len(),
                views(out@) == token_requirements(views(tokens@).take(i as int)),
            decreases tokens.len() - i,
        {
            proof {
                assert(views(tokens@).take(i + 1).drop_last() == views(tokens@).take(i as int));
            }
            let t = trim_chars(&tokens[i]);
            let t = strip_chars(&t, CharClass::Is('\''));
            let t = strip_chars(&t, CharClass::Is('"'));
            match requirement_from_chars(&t) {
                Some(record) => {
                    out.push(record);
                },
                None => {},
            }
            i += 1;
        }
        proof {
            assert(views(tokens@).take(tokens.len() as int) == views(tokens@));
        }
        out
    }

    /// The records of a `pyproject.toml`, none if the text is no TOML.
    pub fn parse_pyproject_toml(content: &str) -> (out: Vec<PackageRequirement>)
        ensures
            views(out@) == match toml_document(content@) {
                Some(doc) => pyproject_requirements(doc),
                None => seq![],
            },
    {
        match parse_toml(content) {
            Some(doc) => Self::pyproject_dependencies(&doc),
            None => no_requirements(),
        }
    }

    /// The records of a parsed `pyproject.toml`.
    pub fn pyproject_dependencies(doc: &TomlValue) -> (out: Vec<PackageRequirement>)
        ensures
            views(out@) == pyproject_requirements(*doc),
    {
        let project = match doc.get("project") {
            Some(project) => project,
            None => {
                return no_requirements();
            },
        };
        match project.get("dependencies") {
            Some(TomlValue::Array(items)) => {
                let mut out = no_requirements();
                let mut i: usize = 0;
                while i < items.len()
                    invariant
                        i <= items.len(),
                        views(out@) == array_requirements(items@.take(i as int)),
                    decreases items.len() - i,
                {
                    proof {
                        assert(items@.take(i + 1).drop_last() == items@.take(i as int));
                    }
                    match items[i].as_str() {
                        Some(text) => {
                            let chars = to_chars(text);
                            match requirement_from_chars(&chars) {
                                Some(record) => {
                                    out.push(record);
                                },
                                None => {},
                            }
                        },
                        None => {},
                    }
                    i += 1;
                }
                proof {
                    assert(items@.take(items.len() as int) == items@);
                }
                out
            },
            Some(TomlValue::Table(entries)) => {
                let mut out = no_requirements();
                let mut i: usize = 0;
                while i < entries.len()
                    invariant
                        i <= entries.len(),
                        views(out@) == table_requirements(entries@.take(i as int)),
                    decreases entries.len() - i,
                {
                    proof {
                        assert(entries@.take(i + 1).drop_last() == entries@.take(i as int));
                    }
                    match entries[i].1.as_str() {
                        Some(version) => {
                            let line = pinned_chars(&entries[i].0, version);
                            match requirement_from_chars(&line) {
                                Some(record) => {
                                    out.push(record);
                                },
                                None => {},
                            }
                        },
                        None => {},
                    }
                    i += 1;
                }
                proof {
                    assert(entries@.take(entries.len() as int) == entries@);
                }
                out
            },
            _ => no_requirements(),
        }
    }

    /// The records of a `Pipfile`, none if the text is no TOML.
    pub fn parse_pipfile(content: &str) -> (out: Vec<PackageRequirement>)
        ensures
            views(out@) == match toml_document(content@) {
                Some(doc) => pipfile_requirements(doc),
                None => seq![],
            },
    {
        match parse_toml(content) {
            Some(doc) => Self::pipfile_dependencies(&doc),
            None => no_requirements(),
        }
    }

    /// The records of a parsed `Pipfile`.
    pub fn pipfile_dependencies(doc: &TomlValue) -> (out: Vec<PackageRequirement>)
        ensures
            views(out@) == pipfile_requirements(*doc),
    {
        let mut out = Self::pipfile_section_dependencies(doc, "packages");
        let mut dev = Self::pipfile_section_dependencies(doc, "dev-packages");
        out.append(&mut dev);
        out
    }

    fn pipfile_section_dependencies(doc: &TomlValue, key: &str) -> (out: Vec<PackageRequirement>)
        ensures
            views(out@) == pipfile_section(*doc, key@),
    {
        let entries = match doc.get(key) {
            Some(TomlValue::Table(entries)) => entries,
            _ => {
                return no_requirements();
            },
        };
        let mut out = no_requirements();
        let mut i: usize = 0;
        while i < entries.len()
            invariant
                i <= entries.len(),
                views(out@) == section_requirements(entries@.take(i as int)),
            decreases entries.len() - i,
        {
            proof {
                assert(entries@.take(i + 1).drop_last() == entries@.take(i as int));
            }
            let version: Option<&str> = match &entries[i].1 {
                TomlValue::Text(v) => Some(v.as_str()),
                TomlValue::Table(_) => match entries[i].1.get("version") {
                    Some(v) => v.as_str(),
                    None => None,
                },
                _ => None,
            };
            match version {
                Some(version) => {
                    let line = pinned_chars(&entries[i].0, version);
                    match requirement_from_chars(&line) {
                        Some(record) => {
                            out.push(record);
                        },
                        None => {},
                    }
                },
                None => {
                    let record = PackageRequirement::bare(entries[i].0.clone());
                    out.push(record);
                },
            }
            i += 1;
        }
        proof {
            assert(entries@.take(entries.len() as int) == entries@);
        }
        out
    }
}

} // verus!
