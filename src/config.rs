//! Configuration values and their defaults. Reading and writing the TOML file
//! is left to the caller.

use vstd::prelude::*;

verus! {

/// Scan configuration.
#[derive(Debug, Clone)]
pub struct Config {
    /// Directory levels a scan descends from its root.
    pub scan_depth: usize,
    /// Directory names a scan never enters.
    pub ignore_dirs: Vec<String>,
    /// GitHub access, when configured.
    pub github: Option<GitHubConfig>,
    pub display: DisplayConfig,
    pub export: ExportConfig,
}

/// GitHub access.
#[derive(Debug, Clone)]
pub struct GitHubConfig {
    pub token: Option<String>,
    pub check_issues: bool,
    pub check_prs: bool,
}

/// Terminal output preferences.
#[derive(Debug, Clone, Copy, PartialEq, Eq, Structural)]
pub struct DisplayConfig {
    pub show_branch: bool,
    pub show_colors: bool,
    pub default_verbose: bool,
}

/// Export preferences.
#[derive(Debug, Clone)]
pub struct ExportConfig {
    /// `html` or `csv`.
    pub default_format: Option<String>,
    /// Path of a custom HTML template.
    pub html_template: Option<String>,
}

/// The directory names skipped by default.
pub open spec fn default_dirs() -> Seq<Seq<char>> {
    seq!["node_modules"@, "target"@, "venv"@, ".build"@, "build"@, "dist"@, ".next"@]
}

/// The default scan depth.
pub fn default_scan_depth() -> (r: usize)
    ensures
        r == 3,
{
    3
}

/// The directory names skipped by default.
pub fn default_ignore_dirs() -> (r: Vec<String>)
    ensures
        r@.map_values(|s: String| s@) == default_dirs(),
{
    let mut v: Vec<String> = Vec::new();
    v.push("node_modules".to_owned());
    v.push("target".to_owned());
    v.push("venv".to_owned());
    v.push(".build".to_owned());
    v.push("build".to_owned());
    v.push("dist".to_owned());
    v.push(".next".to_owned());
    assert(v@.map_values(|s: String| s@) =~= default_dirs());
    v
}

/// The default of flags that are on unless configured off.
pub fn default_true() -> (r: bool)
    ensures
        r,
{
    true
}

impl Default for DisplayConfig {
    fn default() -> (r: Self)
        ensures
            r.show_branch && r.show_colors && !r.default_verbose,
    {
        DisplayConfig { show_branch: true, show_colors: true, default_verbose: false }
    }
}

impl Default for ExportConfig {
    fn default() -> (r: Self)
        ensures
            r.default_format is None,
            r.html_template is None,
    {
        ExportConfig { default_format: None, html_template: None }
    }
}

impl Default for Config {
    fn default() -> (r: Self)
        ensures
            r.scan_depth == 3,
            r.ignore_dirs@.map_values(|s: String| s@) == default_dirs(),
            r.github is None,
            r.display.show_branch && r.display.show_colors && !r.display.default_verbose,
            r.export.default_format is None,
            r.export.html_template is None,
    {
        Config {
            scan_depth: default_scan_depth(),
            ignore_dirs: default_ignore_dirs(),
            github: None,
            display: DisplayConfig::default(),
            export: ExportConfig::default(),
        }
    }
}

} // verus!
