use vstd::prelude::*;
use crate::package::VersionSpec;
use crate::table::Table;

verus! {

/// A text in the project description that is rendered as a template.
#[derive(Debug, Clone)]
pub struct TemplatedString(pub String);

impl TemplatedString {
    pub fn as_str(&self) -> (r: &str)
        ensures
            r@ == self.0@,
    {
        self.0.as_str()
    }
}

/// How the interactive shell is set up: extra search paths and a start-up hook.
#[derive(Debug, Clone)]
pub struct ShellConfig {
    pub user_paths: Option<Vec<TemplatedString>>,
    pub hook: Option<TemplatedString>,
}

/// A service as the project describes it, before rendering.
#[derive(Debug, Clone)]
pub struct ServiceConfig {
    pub script: TemplatedString,
    pub env: Option<Table<TemplatedString>>,
}

/// A project as its description gives it: dependencies in the order they are
/// listed, and templates not yet rendered.
#[derive(Debug)]
pub struct ProjectDesc {
    pub shell: Option<ShellConfig>,
    pub dependencies: Table<VersionSpec>,
    pub env: Option<Table<TemplatedString>>,
    pub services: Option<Table<ServiceConfig>>,
    pub scripts: Option<Table<TemplatedString>>,
    pub vars: Option<Table<String>>,
}

/// One service, fully rendered: its shell script, its own environment
/// variables and its working directory.
#[derive(Debug, Clone)]
pub struct ServiceEnvironment {
    pub script: String,
    pub environ: Table<String>,
    pub working_directory: String,
}

/// The rendered environment of a project, read-only while services run.
#[derive(Debug, Clone)]
pub struct ProjectEnvironment {
    pub environ: Table<String>,
    pub user_environ: Table<String>,
    pub scripts: Table<String>,
    pub services: Table<ServiceEnvironment>,
    pub shell_hook: Option<String>,
    pub state_dir: String,
}

impl ServiceEnvironment {
    pub open spec fn wf(&self) -> bool {
        self.environ.wf()
    }
}

impl ProjectEnvironment {
    /// Every table holds each key once, and so does each service's own environment.
    pub open spec fn wf(&self) -> bool {
        &&& self.environ.wf()
        &&& self.user_environ.wf()
        &&& self.scripts.wf()
        &&& self.services.wf()
        &&& forall|i: int| 0 <= i < self.services@.len() ==> (#[trigger] self.services@[i]).1.wf()
    }
}

} // verus!

verus! {

/// Entries read from a map of a configuration file, in the file's order.
#[derive(Debug, Clone)]
pub struct ConfigMap<T>(pub Vec<T>);

impl<T> ConfigMap<T> {
    pub fn items(&self) -> (r: &Vec<T>)
        ensures
            r@ == self.0@,
    {
        &self.0
    }
}

} // verus!
