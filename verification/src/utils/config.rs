//! The settings of the tool and their defaults.

use crate::analyzer::metrics::REMOVAL_THRESHOLD;
use crate::manifest::cargo::texts;
use vstd::prelude::*;

verus! {

/// General settings.
#[derive(Debug, Clone)]
pub struct GeneralConfig {
    /// The project directory.
    pub project_dir: Option<String>,
    /// Whether development dependencies are analyzed.
    pub include_dev_dependencies: bool,
    /// Whether build dependencies are analyzed.
    pub include_build_dependencies: bool,
    /// How deep project files are searched for.
    pub max_search_depth: usize,
}

impl Default for GeneralConfig {
    fn default() -> (c: Self)
        ensures
            c.project_dir is None,
            c.include_dev_dependencies,
            c.include_build_dependencies,
            c.max_search_depth == 5,
    {
        GeneralConfig {
            project_dir: None,
            include_dev_dependencies: true,
            include_build_dependencies: true,
            max_search_depth: 5,
        }
    }
}

/// Settings of the analysis.
#[derive(Debug, Clone)]
pub struct AnalysisConfig {
    /// The score, in millionths, below which a used dependency is
    /// removable.
    pub removal_threshold: u32,
    /// The number of threads to use.
    pub threads: Option<usize>,
    /// Whether symbolic links are followed.
    pub follow_symlinks: bool,
    /// Patterns of paths that are left out.
    pub exclude_patterns: Vec<String>,
}

impl Default for AnalysisConfig {
    fn default() -> (c: Self)
        ensures
            c.removal_threshold == REMOVAL_THRESHOLD,
            c.threads is None,
            !c.follow_symlinks,
            texts(c.exclude_patterns@) == seq!["**/target/**"@, "**/node_modules/**"@, "**/.git/**"@],
    {
        let mut exclude_patterns: Vec<String> = Vec::new();
        exclude_patterns.push(String::from_str("**/target/**"));
        exclude_patterns.push(String::from_str("**/node_modules/**"));
        exclude_patterns.push(String::from_str("**/.git/**"));
        assert(texts(exclude_patterns@) =~= seq![
            "**/target/**"@,
            "**/node_modules/**"@,
            "**/.git/**"@,
        ]);
        AnalysisConfig {
            removal_threshold: REMOVAL_THRESHOLD,
            threads: None,
            follow_symlinks: false,
            exclude_patterns,
        }
    }
}

/// The formats in which an analysis is exported.
#[derive(Debug, Clone, Copy, PartialEq, Eq, Structural)]
pub enum ExportFormat {
    Json,
    Csv,
}

/// Settings of the export.
#[derive(Debug, Clone)]
pub struct ExportConfig {
    /// The format used where none is asked for.
    pub default_format: ExportFormat,
    /// The directory that exports are written to.
    pub output_dir: String,
}

impl Default for ExportConfig {
    fn default() -> (c: Self)
        ensures
            c.default_format == ExportFormat::Json,
            c.output_dir@ == "."@,
    {
        ExportConfig { default_format: ExportFormat::Json, output_dir: String::from_str(".") }
    }
}

/// The colours of the display.
#[derive(Debug, Clone)]
pub struct ColorScheme {
    pub primary: String,
    pub secondary: String,
    pub background: String,
    pub highlight: String,
}

impl Default for ColorScheme {
    fn default() -> (c: Self)
        ensures
            c.primary@ == "#268bd2"@,
            c.secondary@ == "#2aa198"@,
            c.background@ == "#073642"@,
            c.highlight@ == "#d33682"@,
    {
        ColorScheme {
            primary: String::from_str("#268bd2"),
            secondary: String::from_str("#2aa198"),
            background: String::from_str("#073642"),
            highlight: String::from_str("#d33682"),
        }
    }
}

/// Settings of the display.
#[derive(Debug, Clone)]
pub struct TuiConfig {
    /// Whether unicode symbols are used.
    pub use_unicode: bool,
    /// Whether the help bar is shown.
    pub show_help_bar: bool,
    /// The colours.
    pub color_scheme: ColorScheme,
}

impl Default for TuiConfig {
    fn default() -> (c: Self)
        ensures
            c.use_unicode,
            c.show_help_bar,
            c.color_scheme.primary@ == "#268bd2"@,
            c.color_scheme.secondary@ == "#2aa198"@,
            c.color_scheme.background@ == "#073642"@,
            c.color_scheme.highlight@ == "#d33682"@,
    {
        TuiConfig { use_unicode: true, show_help_bar: true, color_scheme: ColorScheme::default() }
    }
}

/// All settings.
#[derive(Debug, Clone)]
pub struct Config {
    pub general: GeneralConfig,
    pub analysis: AnalysisConfig,
    pub export: ExportConfig,
    pub tui: TuiConfig,
}

impl Default for Config {
    fn default() -> (c: Self)
        ensures
            c.general.project_dir is None,
            c.general.include_dev_dependencies,
            c.general.include_build_dependencies,
            c.general.max_search_depth == 5,
            c.analysis.removal_threshold == REMOVAL_THRESHOLD,
            c.analysis.threads is None,
            !c.analysis.follow_symlinks,
            texts(c.analysis.exclude_patterns@) == seq![
                "**/target/**"@,
                "**/node_modules/**"@,
                "**/.git/**"@,
            ],
            c.export.default_format == ExportFormat::Json,
            c.export.output_dir@ == "."@,
            c.tui.use_unicode,
            c.tui.show_help_bar,
            c.tui.color_scheme.primary@ == "#268bd2"@,
            c.tui.color_scheme.secondary@ == "#2aa198"@,
            c.tui.color_scheme.background@ == "#073642"@,
            c.tui.color_scheme.highlight@ == "#d33682"@,
    {
        Config {
            general: GeneralConfig::default(),
            analysis: AnalysisConfig::default(),
            export: ExportConfig::default(),
            tui: TuiConfig::default(),
        }
    }
}

} // verus!
