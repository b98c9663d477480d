//! What the user can configure.

use vstd::prelude::*;

verus! {

/// Which files the file picker leaves out.
#[derive(Debug, Clone, PartialEq)]
pub struct FilePickerConfig {
    /// Leave out hidden files.
    pub hidden: bool,
    /// Read ignore files from parent directories.
    pub parents: bool,
    /// Read `.ignore` files.
    pub ignore: bool,
    /// Read `.gitignore` files.
    pub git_ignore: bool,
    /// Read the global gitignore file.
    pub git_global: bool,
    /// Read `.git/info/exclude` files.
    pub git_exclude: bool,
    /// How deep to descend into directories; `None` for no limit.
    pub max_depth: Option<usize>,
}

impl FilePickerConfig {
    /// The settings of a file picker that nobody configured: every ignore
    /// rule is on and the depth is not limited.
    pub open spec fn spec_default() -> FilePickerConfig {
        FilePickerConfig {
            hidden: true,
            parents: true,
            ignore: true,
            git_ignore: true,
            git_global: true,
            git_exclude: true,
            max_depth: None,
        }
    }
}

impl Default for FilePickerConfig {
    fn default() -> (c: FilePickerConfig)
        ensures
            c == FilePickerConfig::spec_default(),
    {
        FilePickerConfig {
            hidden: true,
            parents: true,
            ignore: true,
            git_ignore: true,
            git_global: true,
            git_exclude: true,
            max_depth: None,
        }
    }
}

/// How line numbers are shown.
#[derive(Debug, Copy, Clone, PartialEq, Eq, Structural)]
pub enum LineNumber {
    /// The number of the line in the buffer.
    Absolute,
    /// The distance to the line of the primary cursor.
    Relative,
}

/// The editor's settings.
#[derive(Debug, Clone, PartialEq)]
pub struct Config {
    /// Lines and columns kept between the cursor and the edge of a pane.
    pub scrolloff: usize,
    /// Lines to scroll at once.
    pub scroll_lines: isize,
    /// Mouse support.
    pub mouse: bool,
    /// The shell for shell commands, with its arguments.
    pub shell: Vec<String>,
    pub line_number: LineNumber,
    /// Paste on middle click.
    pub middle_click_paste: bool,
    /// Search without regard to case unless the pattern has an upper case letter.
    pub smart_case: bool,
    /// Insert the closing bracket with the opening one.
    pub auto_pairs: bool,
    /// Offer completions without being asked.
    pub auto_completion: bool,
    /// Milliseconds without a key press after which the idle timer fires.
    pub idle_timeout: u64,
    pub completion_trigger_len: u8,
    /// Show info boxes.
    pub auto_info: bool,
    pub file_picker: FilePickerConfig,
}

impl Config {
    /// True of the settings of an editor that nobody configured.
    pub open spec fn is_default(self) -> bool {
        &&& self.scrolloff == 5
        &&& self.scroll_lines == 3
        &&& self.mouse
        &&& self.shell@.len() == 2
        &&& self.shell@[0]@ == "sh"@
        &&& self.shell@[1]@ == "-c"@
        &&& self.line_number == LineNumber::Absolute
        &&& self.middle_click_paste
        &&& self.smart_case
        &&& self.auto_pairs
        &&& self.auto_completion
        &&& self.idle_timeout == 400
        &&& self.completion_trigger_len == 2
        &&& self.auto_info
        &&& self.file_picker == FilePickerConfig::spec_default()
    }
}

impl Default for Config {
    fn default() -> (c: Config)
        ensures
            c.is_default(),
    {
        let mut shell: Vec<String> = Vec::new();
        shell.push("sh".to_owned());
        shell.push("-c".to_owned());
        Config {
            scrolloff: 5,
            scroll_lines: 3,
            mouse: true,
            shell,
            line_number: LineNumber::Absolute,
            middle_click_paste: true,
            smart_case: true,
            auto_pairs: true,
            auto_completion: true,
            idle_timeout: 400,
            completion_trigger_len: 2,
            auto_info: true,
            file_picker: FilePickerConfig::default(),
        }
    }
}

} // verus!
