//! The editor's settings and their defaults.
use vstd::prelude::*;

verus! {

#[derive(Clone, Debug)]
pub struct Config {
    pub ui: UIConfig,
    pub keymaps: KeymapConfig,
    pub picker: PickerConfig,
    pub dashboard: DashboardConfig,
}

#[derive(Clone, Debug)]
pub struct UIConfig {
    pub theme: String,
    pub show_line_numbers: bool,
    pub show_status_line: bool,
    pub tab_width: usize,
    pub wrap_lines: bool,
}

#[derive(Clone, Debug)]
pub struct KeymapConfig {
    pub leader: String,
    pub timeout_ms: u64,
}

#[derive(Clone, Debug)]
pub struct PickerConfig {
    pub file_ignore_patterns: Vec<String>,
    pub max_results: usize,
    pub preview_enabled: bool,
}

#[derive(Clone, Debug)]
pub struct DashboardConfig {
    pub show_recent_files: bool,
    pub max_recent_files: usize,
    pub custom_header: Option<String>,
}

impl Config {
    /// The same settings as `other`.
    pub open spec fn same_as(&self, other: Config) -> bool {
        &&& self.ui.theme@ == other.ui.theme@
        &&& self.ui.show_line_numbers == other.ui.show_line_numbers
        &&& self.ui.show_status_line == other.ui.show_status_line
        &&& self.ui.tab_width == other.ui.tab_width
        &&& self.ui.wrap_lines == other.ui.wrap_lines
        &&& self.keymaps.leader@ == other.keymaps.leader@
        &&& self.keymaps.timeout_ms == other.keymaps.timeout_ms
        &&& self.picker.file_ignore_patterns@ == other.picker.file_ignore_patterns@
        &&& self.picker.max_results == other.picker.max_results
        &&& self.picker.preview_enabled == other.picker.preview_enabled
        &&& self.dashboard.show_recent_files == other.dashboard.show_recent_files
        &&& self.dashboard.max_recent_files == other.dashboard.max_recent_files
        &&& self.dashboard.custom_header == other.dashboard.custom_header
    }

    /// A copy of the settings.
    pub fn copied(&self) -> (r: Config)
        ensures
            r.same_as(*self),
    {
        let patterns = self.picker.file_ignore_patterns.clone();
        assert(patterns@ =~= self.picker.file_ignore_patterns@) by {
            assert forall|i: int| 0 <= i < patterns.len() implies patterns@[i]
                == self.picker.file_ignore_patterns@[i] by {
                assert(cloned::<String>(self.picker.file_ignore_patterns[i], patterns[i]));
            }
        }
        let header = match &self.dashboard.custom_header {
            Some(h) => Some(h.clone()),
            None => None,
        };
        Config {
            ui: UIConfig {
                theme: self.ui.theme.clone(),
                show_line_numbers: self.ui.show_line_numbers,
                show_status_line: self.ui.show_status_line,
                tab_width: self.ui.tab_width,
                wrap_lines: self.ui.wrap_lines,
            },
            keymaps: KeymapConfig { leader: self.keymaps.leader.clone(), timeout_ms: self.keymaps.timeout_ms },
            picker: PickerConfig {
                file_ignore_patterns: patterns,
                max_results: self.picker.max_results,
                preview_enabled: self.picker.preview_enabled,
            },
            dashboard: DashboardConfig {
                show_recent_files: self.dashboard.show_recent_files,
                max_recent_files: self.dashboard.max_recent_files,
                custom_header: header,
            },
        }
    }
}

impl Default for Config {
    /// The "zen" theme without line numbers or status line, tabs of 2, a space
    /// as leader with a one second timeout, a picker of at most 100 results that
    /// skips `.git`, `node_modules`, `target` and `*.pyc`, and a dashboard with
    /// five recent files.
    fn default() -> (r: Config)
        ensures
            r.ui.theme@ == "zen"@,
            !r.ui.show_line_numbers,
            !r.ui.show_status_line,
            r.ui.tab_width == 2,
            !r.ui.wrap_lines,
            r.keymaps.leader@ == " "@,
            r.keymaps.timeout_ms == 1000,
            r.picker.file_ignore_patterns@.len() == 4,
            r.picker.file_ignore_patterns@[0]@ == ".git"@,
            r.picker.file_ignore_patterns@[1]@ == "node_modules"@,
            r.picker.file_ignore_patterns@[2]@ == "target"@,
            r.picker.file_ignore_patterns@[3]@ == "*.pyc"@,
            r.picker.max_results == 100,
            r.picker.preview_enabled,
            r.dashboard.show_recent_files,
            r.dashboard.max_recent_files == 5,
            r.dashboard.custom_header is None,
    {
        let mut patterns: Vec<String> = Vec::new();
        patterns.push(String::from_str(".git"));
        patterns.push(String::from_str("node_modules"));
        patterns.push(String::from_str("target"));
        patterns.push(String::from_str("*.pyc"));
        Config {
            ui: UIConfig {
                theme: String::from_str("zen"),
                show_line_numbers: false,
                show_status_line: false,
                tab_width: 2,
                wrap_lines: false,
            },
            keymaps: KeymapConfig { leader: String::from_str(" "), timeout_ms: 1000 },
            picker: PickerConfig { file_ignore_patterns: patterns, max_results: 100, preview_enabled: true },
            dashboard: DashboardConfig { show_recent_files: true, max_recent_files: 5, custom_header: None },
        }
    }
}

} // verus!
