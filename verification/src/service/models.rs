//! Services: deployable units, each rooted at a directory.
use vstd::prelude::*;

verus! {

/// A service that the configuration names.
#[derive(Debug, Clone)]
pub struct ServiceConfig {
    /// Name of the service.
    pub name: String,
    /// Root path of the service.
    pub path: String,
    /// Additional paths to include.
    pub include_paths: Vec<String>,
    /// Paths to exclude.
    pub exclude_paths: Vec<String>,
    /// Rules for finding the service's root.
    pub detection: ServiceDetectionRules,
}

/// Which files mark the root of a service.
#[derive(Debug, Clone)]
pub struct ServiceDetectionRules {
    /// Look for `setup.py` files.
    pub detect_setup_py: bool,
    /// Look for `pyproject.toml` files.
    pub detect_pyproject: bool,
    /// Additional files that mark a service root.
    pub indicator_files: Vec<String>,
}

/// The value of a detection rule that is not configured.
pub fn default_true() -> (r: bool)
    ensures
        r,
{
    true
}

impl Default for ServiceDetectionRules {
    fn default() -> (rules: Self)
        ensures
            rules.detect_setup_py,
            rules.detect_pyproject,
            rules.indicator_files@.len() == 0,
    {
        Self {
            detect_setup_py: default_true(),
            detect_pyproject: default_true(),
            indicator_files: Vec::new(),
        }
    }
}

/// A service and where it lives.
#[derive(Debug, Clone)]
pub struct DetectedService {
    pub name: String,
    pub root_path: String,
    pub package_root: String,
    pub detection_type: ServiceDetectionType,
}

/// How a service was found.
#[derive(Debug, Clone, PartialEq)]
pub enum ServiceDetectionType {
    SetupPy,
    PyprojectToml,
    ConfigurationDefined,
    IndicatorFile(String),
}

} // verus!
