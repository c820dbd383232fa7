//! The parts of the user's configuration that the engine reads.

use vstd::prelude::*;

verus! {

/// Where solutions are kept and which template seeds them.
#[derive(Debug)]
pub struct Config {
    /// Root of the solution workspace; blank means `~/cpos`.
    pub workspace_dir: Option<String>,
    /// A file whose content seeds new solutions; blank means the built-in template.
    pub template_file: Option<String>,
}

impl Default for Config {
    fn default() -> (c: Config)
        ensures
            c.workspace_dir.is_none(),
            c.template_file.is_none(),
    {
        Config { workspace_dir: None, template_file: None }
    }
}

/// How one language is built and run. In both commands `{source}`,
/// `{output}`, `{dir}` and `{classname}` are filled in before running.
#[derive(Debug)]
pub struct CompileConfig {
    /// The build command; `None` for interpreted languages.
    pub compile: Option<String>,
    /// The command that runs the solution.
    pub run: String,
}

} // verus!
