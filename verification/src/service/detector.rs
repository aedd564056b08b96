//! Finds the services of a directory listing: those that the configuration
//! names, and one for each `setup.py` or `pyproject.toml` in the listing.
use crate::collections::{first_occurrences, StringMap};
use crate::package_deps::models::{option_view, ScannedFile};
use crate::package_deps::toml_value::{parse_toml, toml_document, TomlValue};
use crate::paths::{
    components, components_of, file_name, file_name_of, is_named, is_under, parent, parent_of,
    path_is_under,
};
use crate::service::models::{DetectedService, ServiceConfig, ServiceDetectionType};
use crate::text::{
    find, find_chars, from_chars, lines, lines_of, split, split_chars, strip_leading,
    strip_leading_chars, strip_trailing, strip_trailing_chars, subrange, to_chars, trim,
    trim_chars, views, CharClass,
};
use vstd::prelude::*;

verus! {

/// Why no registry of services could be made.
#[derive(Debug, Clone, PartialEq, Eq)]
pub enum DetectionError {
    /// The manifest at this path could not be read.
    Unreadable(String),
    /// The manifest at this path is no TOML document.
    InvalidManifest(String),
    /// The manifest at this path gives its service no name, and the
    /// directory it lies in has none.
    Unnamed(String),
}

/// A failed detection, with the path as text.
pub enum DetectionFailure {
    Unreadable(Seq<char>),
    InvalidManifest(Seq<char>),
    Unnamed(Seq<char>),
}

impl View for DetectionError {
    type V = DetectionFailure;

    open spec fn view(&self) -> DetectionFailure {
        match self {
            DetectionError::Unreadable(path) => DetectionFailure::Unreadable(path@),
            DetectionError::InvalidManifest(path) => DetectionFailure::InvalidManifest(path@),
            DetectionError::Unnamed(path) => DetectionFailure::Unnamed(path@),
        }
    }
}

/// A service as text.
pub struct ServiceView {
    pub name: Seq<char>,
    pub root_path: Seq<char>,
    pub package_root: Seq<char>,
    pub detection_type: ServiceDetectionType,
}

impl View for DetectedService {
    type V = ServiceView;

    open spec fn view(&self) -> ServiceView {
        ServiceView {
            name: self.name@,
            root_path: self.root_path@,
            package_root: self.package_root@,
            detection_type: self.detection_type,
        }
    }
}

/// What follows the first `name=` in a line, or, where there is none, the
/// first `name =`.
pub open spec fn after_name_keyword(line: Seq<char>) -> Option<Seq<char>> {
    match find(line, "name="@) {
        Some(i) => Some(line.skip(i + "name="@.len())),
        None => match find(line, "name ="@) {
            Some(i) => Some(line.skip(i + "name ="@.len())),
            None => None,
        },
    }
}

/// The name at the start of `part`. White space, opening parentheses and
/// quotes before it are dropped, in whatever order they stand. It ends
/// before the first comma, and white space, quotes and closing parentheses
/// behind it are dropped in the same way.
pub open spec fn cleaned_name(part: Seq<char>) -> Seq<char> {
    let opened = strip_leading(part, CharClass::Opening);
    strip_trailing(split(opened, seq![','])[0], CharClass::Closing)
}

/// The name that one line of a `setup.py` gives.
pub open spec fn line_name(line: Seq<char>) -> Option<Seq<char>> {
    match after_name_keyword(trim(line)) {
        Some(part) if cleaned_name(part).len() > 0 => Some(cleaned_name(part)),
        _ => None,
    }
}

/// The name that the first of the lines to give one gives.
pub open spec fn first_line_name(lines: Seq<Seq<char>>) -> Option<Seq<char>>
    decreases lines.len(),
{
    if lines.len() == 0 {
        None
    } else if line_name(lines[0]) is Some {
        line_name(lines[0])
    } else {
        first_line_name(lines.drop_first())
    }
}

/// The package name that a `setup.py` gives.
pub open spec fn setup_py_name(content: Seq<char>) -> Option<Seq<char>> {
    first_line_name(lines(content))
}

/// The package name that a `pyproject.toml` gives: the string
/// `project.name`.
pub open spec fn pyproject_name(doc: TomlValue) -> Option<Seq<char>> {
    match doc.member("project"@) {
        Some(project) => match project.member("name"@) {
            Some(name) => name.text(),
            None => None,
        },
        None => None,
    }
}

/// Whether the file at `path` marks a package below `dir`: it is named
/// `__init__.py` and lies under `dir`, at most three levels down.
pub open spec fn marks_package(dir: Seq<char>, path: Seq<char>) -> bool {
    &&& file_name(path) == Some("__init__.py"@)
    &&& is_under(path, dir)
    &&& components(path).len() <= components(dir).len() + 3
}

/// The directory of the first file of the listing that marks a package
/// below `dir`, and `dir` itself where there is none.
pub open spec fn package_root(dir: Seq<char>, files: Seq<ScannedFile>) -> Seq<char>
    decreases files.len(),
{
    if files.len() == 0 {
        dir
    } else if marks_package(dir, files[0].path@) {
        match parent(files[0].path@) {
            Some(p) => p,
            None => dir,
        }
    } else {
        package_root(dir, files.drop_first())
    }
}

/// The service of the manifest at `path`. It is rooted at the directory of
/// the manifest. Its name is the one that the manifest gives or else the
/// name of that directory.
pub open spec fn named_service(
    path: Seq<char>,
    manifest_name: Option<Seq<char>>,
    detection_type: ServiceDetectionType,
    files: Seq<ScannedFile>,
) -> Result<Option<ServiceView>, DetectionFailure> {
    let root = match parent(path) {
        Some(p) => p,
        None => path,
    };
    let name = match manifest_name {
        Some(n) => Some(n),
        None => file_name(root),
    };
    match name {
        Some(n) => Ok(
            Some(
                ServiceView {
                    name: n,
                    root_path: root,
                    package_root: package_root(root, files),
                    detection_type,
                },
            ),
        ),
        None => Err(DetectionFailure::Unnamed(path)),
    }
}

/// The service that the file at `path` stands for, if it stands for one.
/// `doc` is what the TOML parser made of the text.
pub open spec fn service_at(
    path: Seq<char>,
    content: Option<Seq<char>>,
    doc: Option<TomlValue>,
    files: Seq<ScannedFile>,
) -> Result<Option<ServiceView>, DetectionFailure> {
    if file_name(path) == Some("setup.py"@) {
        match content {
            Some(text) => named_service(
                path,
                setup_py_name(text),
                ServiceDetectionType::SetupPy,
                files,
            ),
            None => Err(DetectionFailure::Unreadable(path)),
        }
    } else if file_name(path) == Some("pyproject.toml"@) {
        match content {
            Some(_) => match doc {
                Some(d) => named_service(
                    path,
                    pyproject_name(d),
                    ServiceDetectionType::PyprojectToml,
                    files,
                ),
                None => Err(DetectionFailure::InvalidManifest(path)),
            },
            None => Err(DetectionFailure::Unreadable(path)),
        }
    } else {
        Ok(None)
    }
}

/// What the TOML parser makes of an optional text.
pub open spec fn document_of(content: Option<Seq<char>>) -> Option<TomlValue> {
    match content {
        Some(text) => toml_document(text),
        None => None,
    }
}

/// The service that a configuration names.
pub open spec fn configured_service(config: ServiceConfig, files: Seq<ScannedFile>) -> ServiceView {
    ServiceView {
        name: config.name@,
        root_path: config.path@,
        package_root: package_root(config.path@, files),
        detection_type: ServiceDetectionType::ConfigurationDefined,
    }
}

/// The services that the configurations name, by name. Of two with one name
/// the later stays.
pub open spec fn configured(configs: Seq<ServiceConfig>, files: Seq<ScannedFile>) -> Map<
    Seq<char>,
    ServiceView,
>
    decreases configs.len(),
{
    if configs.len() == 0 {
        Map::empty()
    } else {
        configured(configs.drop_last(), files).insert(
            configs.last().name@,
            configured_service(configs.last(), files),
        )
    }
}

/// `found` with the services that the first `n` files of the listing stand
/// for, or the first failure among them. A service whose name is taken is
/// left out.
pub open spec fn detected(
    found: Map<Seq<char>, ServiceView>,
    files: Seq<ScannedFile>,
    n: int,
) -> Result<Map<Seq<char>, ServiceView>, DetectionFailure>
    decreases n,
{
    if n <= 0 || n > files.len() {
        Ok(found)
    } else {
        let content = option_view(files[n - 1].content);
        match detected(found, files, n - 1) {
            Err(e) => Err(e),
            Ok(before) => match service_at(
                files[n - 1].path@,
                content,
                document_of(content),
                files,
            ) {
                Err(e) => Err(e),
                Ok(None) => Ok(before),
                Ok(Some(service)) => if before.contains_key(service.name) {
                    Ok(before)
                } else {
                    Ok(before.insert(service.name, service))
                },
            },
        }
    }
}

/// The names of the configured services.
pub open spec fn config_names(configs: Seq<ServiceConfig>) -> Seq<Seq<char>> {
    Seq::new(configs.len(), |i: int| configs[i].name@)
}

/// `names` with the names of the services that the first `n` files of the
/// listing stand for, each behind those before it. A name that is taken is
/// not added again.
pub open spec fn detected_names(
    names: Seq<Seq<char>>,
    files: Seq<ScannedFile>,
    n: int,
) -> Seq<Seq<char>>
    decreases n,
{
    if n <= 0 || n > files.len() {
        names
    } else {
        let content = option_view(files[n - 1].content);
        let before = detected_names(names, files, n - 1);
        match service_at(files[n - 1].path@, content, document_of(content), files) {
            Ok(Some(service)) if !before.contains(service.name) => before.push(service.name),
            _ => before,
        }
    }
}

/// The order of a registry of services: the configured services in the
/// order in which their names first occur, then those of the listing in its
/// order.
pub open spec fn registry_order(configs: Seq<ServiceConfig>, files: Seq<ScannedFile>) -> Seq<
    Seq<char>,
> {
    detected_names(first_occurrences(config_names(configs)), files, files.len() as int)
}

/// The services of a registry, by name.
pub open spec fn registry_view(services: StringMap<DetectedService>) -> Map<
    Seq<char>,
    ServiceView,
> {
    services@.map_values(|s: DetectedService| s@)
}

/// The package name that a `setup.py` gives.
pub fn extract_package_name_from_setup_py(content: &str) -> (name: Option<String>)
    ensures
        option_view(name) == setup_py_name(content@),
{
    let chars = to_chars(content);
    let all = lines_of(&chars);
    let ghost every = views(all@);
    let mut k: usize = 0;
    proof {
        assert(every.skip(0) == every);
    }
    while k < all.len()
        invariant
            k <= all.len(),
            every == views(all@),
            every == lines(content@),
            first_line_name(every) == first_line_name(every.skip(k as int)),
        decreases all.len() - k,
    {
        proof {
            assert(every.skip(k as int).drop_first() == every.skip(k + 1));
        }
        match name_in_line(&all[k]) {
            Some(name) => {
                return Some(name);
            },
            None => {},
        }
        k += 1;
    }
    None
}

fn name_in_line(raw: &Vec<char>) -> (name: Option<String>)
    ensures
        option_view(name) == line_name(raw@),
{
    let line = trim_chars(raw);
    let keyword = to_chars("name=");
    let spaced = to_chars("name =");
    let part = match find_chars(&line, &keyword, 0) {
        Some(i) => subrange(&line, i + keyword.len(), line.len()),
        None => match find_chars(&line, &spaced, 0) {
            Some(i) => subrange(&line, i + spaced.len(), line.len()),
            None => {
                return None;
            },
        },
    };
    let comma: Vec<char> = vec![','];
    proof {
        assert(comma@ == seq![',']);
    }
    let opened = strip_leading_chars(&part, CharClass::Opening);
    let pieces = split_chars(&opened, &comma);
    let closed = strip_trailing_chars(&pieces[0], CharClass::Closing);
    if closed.len() > 0 {
        Some(from_chars(&closed))
    } else {
        None
    }
}

/// The package name that a parsed `pyproject.toml` gives.
pub fn extract_package_name_from_pyproject(doc: &TomlValue) -> (name: Option<String>)
    ensures
        option_view(name) == pyproject_name(*doc),
{
    match doc.get("project") {
        Some(project) => match project.get("name") {
            Some(name) => match name.as_str() {
                Some(text) => Some(text.to_owned()),
                None => None,
            },
            None => None,
        },
        None => None,
    }
}

/// The directory of the first file of the listing that marks a package
/// below `dir`, and `dir` itself where there is none.
pub fn find_package_root(dir: &str, files: &Vec<ScannedFile>) -> (root: String)
    ensures
        root@ == package_root(dir@, files@),
{
    let dir_chars = to_chars(dir);
    let depth = components_of(&dir_chars).len();
    let mut k: usize = 0;
    proof {
        assert(files@.skip(0) == files@);
    }
    while k < files.len()
        invariant
            k <= files.len(),
            depth == components(dir@).len(),
            package_root(dir@, files@) == package_root(dir@, files@.skip(k as int)),
        decreases files.len() - k,
    {
        proof {
            assert(files@.skip(k as int).drop_first() == files@.skip(k + 1));
        }
        let path = files[k].path.as_str();
        if is_named(path, "__init__.py") && path_is_under(path, dir) {
            let path_chars = to_chars(path);
            let parts = components_of(&path_chars);
            if parts.len() - depth <= 3 {
                return match parent_of(path) {
                    Some(p) => p,
                    None => dir.to_owned(),
                };
            }
        }
        k += 1;
    }
    dir.to_owned()
}

/// Finds the services of a directory listing.
pub struct ServiceDetector {
    configs: Vec<ServiceConfig>,
}

/// What a detection gives, as text.
pub open spec fn detection_view(r: Result<Option<DetectedService>, DetectionError>) -> Result<
    Option<ServiceView>,
    DetectionFailure,
> {
    match r {
        Ok(Some(service)) => Ok(Some(service@)),
        Ok(None) => Ok(None),
        Err(e) => Err(e@),
    }
}

/// The text of an optional string slice.
pub open spec fn option_str_view(s: Option<&str>) -> Option<Seq<char>> {
    match s {
        Some(t) => Some(t@),
        None => None,
    }
}

fn service_of_manifest(
    path: &str,
    manifest_name: Option<String>,
    detection_type: ServiceDetectionType,
    files: &Vec<ScannedFile>,
) -> (r: Result<Option<DetectedService>, DetectionError>)
    ensures
        detection_view(r) == named_service(
            path@,
            option_view(manifest_name),
            detection_type,
            files@,
        ),
{
    let root_path = match parent_of(path) {
        Some(p) => p,
        None => path.to_owned(),
    };
    let name = match manifest_name {
        Some(n) => n,
        None => match file_name_of(root_path.as_str()) {
            Some(n) => n,
            None => {
                return Err(DetectionError::Unnamed(path.to_owned()));
            },
        },
    };
    let package_root = find_package_root(root_path.as_str(), files);
    Ok(Some(DetectedService { name, root_path, package_root, detection_type }))
}

impl ServiceDetector {
    /// The configurations that this detector was made with.
    pub closed spec fn configs(&self) -> Seq<ServiceConfig> {
        self.configs@
    }

    /// A detector for the configured services.
    pub fn new(configs: Vec<ServiceConfig>) -> (detector: Self)
        ensures
            detector.configs() == configs@,
    {
        Self { configs }
    }

    /// The registry of the services of a listing: those that the
    /// configurations name, then one for each manifest of the listing whose
    /// name is not taken. The first manifest that cannot be read or gives no
    /// service a name ends the detection.
    pub fn detect_services(&self, files: &Vec<ScannedFile>) -> (r: Result<
        StringMap<DetectedService>,
        DetectionError,
    >)
        ensures
            match r {
                Ok(services) => services.wf() && detected(
                    configured(self.configs(), files@),
                    files@,
                    files.len() as int,
                ) == Ok::<_, DetectionFailure>(registry_view(services)) && services.key_order()
                    == registry_order(self.configs(), files@),
                Err(e) => detected(
                    configured(self.configs(), files@),
                    files@,
                    files.len() as int,
                ) == Err::<Map<Seq<char>, ServiceView>, _>(e@),
            },
    {
        let mut services: StringMap<DetectedService> = StringMap::new();
        let ghost all_names = config_names(self.configs@);
        // First, add configured services
        let mut i: usize = 0;
        while i < self.configs.len()
            invariant
                i <= self.configs.len(),
                services.wf(),
                all_names == config_names(self.configs@),
                registry_view(services) == configured(self.configs@.take(i as int), files@),
                services.key_order() == first_occurrences(all_names.take(i as int)),
            decreases self.configs.len() - i,
        {
            let config = &self.configs[i];
            proof {
                let upto = self.configs@.take(i + 1);
                assert(upto.drop_last() == self.configs@.take(i as int));
                let names = all_names.take(i + 1);
                assert(names.drop_last() == all_names.take(i as int));
                services.lemma_key_order();
            }
            let service = DetectedService {
                name: config.name.clone(),
                root_path: config.path.clone(),
                package_root: find_package_root(config.path.as_str(), files),
                detection_type: ServiceDetectionType::ConfigurationDefined,
            };
            services.insert(service.name.clone(), service);
            i += 1;
        }
        proof {
            assert(self.configs@.take(self.configs.len() as int) == self.configs@);
            assert(all_names.take(self.configs.len() as int) == all_names);
        }
        // Then detect additional services
        let ghost start = registry_view(services);
        let ghost start_names = services.key_order();
        let mut k: usize = 0;
        while k < files.len()
            invariant
                k <= files.len(),
                services.wf(),
                start == configured(self.configs(), files@),
                start_names == first_occurrences(config_names(self.configs())),
                detected(start, files@, k as int) == Ok::<_, DetectionFailure>(
                    registry_view(services),
                ),
                services.key_order() == detected_names(start_names, files@, k as int),
            decreases files.len() - k,
        {
            proof {
                services.lemma_key_order();
            }
            let file = &files[k];
            let content: Option<&str> = match &file.content {
                Some(text) => Some(text.as_str()),
                None => None,
            };
            match self.detect_service_at_path(file.path.as_str(), content, files) {
                Err(e) => {
                    proof {
                        Self::lemma_failure_stays(start, files@, k + 1, files.len() as int);
                    }
                    return Err(e);
                },
                Ok(None) => {},
                Ok(Some(service)) => {
                    if !services.contains_key(service.name.as_str()) {
                        let ghost before = registry_view(services);
                        let ghost view = service@;
                        services.insert(service.name.clone(), service);
                        proof {
                            assert(registry_view(services) =~= before.insert(view.name, view));
                        }
                    }
                },
            }
            k += 1;
        }
        Ok(services)
    }

    /// Once a file of the listing has failed, the files after it change
    /// nothing.
    proof fn lemma_failure_stays(
        found: Map<Seq<char>, ServiceView>,
        files: Seq<ScannedFile>,
        n: int,
        m: int,
    )
        requires
            0 <= n <= m <= files.len(),
            detected(found, files, n) is Err,
        ensures
            detected(found, files, m) == detected(found, files, n),
        decreases m - n,
    {
        if n < m {
            Self::lemma_failure_stays(found, files, n, m - 1);
        }
    }

    /// The service that the file at `path` stands for, if it stands for one:
    /// a `setup.py` or a `pyproject.toml` does. `content` is its text, where
    /// it could be read.
    pub fn detect_service_at_path(
        &self,
        path: &str,
        content: Option<&str>,
        files: &Vec<ScannedFile>,
    ) -> (r: Result<Option<DetectedService>, DetectionError>)
        ensures
            detection_view(r) == service_at(
                path@,
                option_str_view(content),
                document_of(option_str_view(content)),
                files@,
            ),
    {
        if is_named(path, "setup.py") {
            match content {
                Some(text) => service_of_manifest(
                    path,
                    extract_package_name_from_setup_py(text),
                    ServiceDetectionType::SetupPy,
                    files,
                ),
                None => Err(DetectionError::Unreadable(path.to_owned())),
            }
        } else if is_named(path, "pyproject.toml") {
            match content {
                Some(text) => match parse_toml(text) {
                    Some(doc) => service_of_manifest(
                        path,
                        extract_package_name_from_pyproject(&doc),
                        ServiceDetectionType::PyprojectToml,
                        files,
                    ),
                    None => Err(DetectionError::InvalidManifest(path.to_owned())),
                },
                None => Err(DetectionError::Unreadable(path.to_owned())),
            }
        } else {
            Ok(None)
        }
    }

    /// Whether a path is passed over because it lies in a service that was
    /// found before. Services may lie within services, so none is.
    pub fn is_path_in_existing_service(
        &self,
        path: &str,
        services: &StringMap<DetectedService>,
    ) -> (r: bool)
        ensures
            !r,
    {
        // Don't skip nested services
        false
    }
}

} // verus!
